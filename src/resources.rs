//! Resource locators: the sanitized identity of a sequence or a topic, and the
//! storage paths derived from it.
use crate::names::{sanitize_name, sanitized};
use vstd::prelude::*;

verus! {

/// The kind of a resource.
#[derive(Debug, Clone, Copy, PartialEq, Eq, Structural)]
pub enum ResourceType {
    Sequence,
    Topic,
}

/// The locator of a topic: its sanitized name.
#[derive(Debug, Clone)]
pub struct TopicResourceLocator(String);

impl View for TopicResourceLocator {
    type V = Seq<char>;

    closed spec fn view(&self) -> Seq<char> {
        self.0@
    }
}

impl TopicResourceLocator {
    /// Builds the locator of the topic named `raw`, in canonical form.
    pub fn from(raw: &str) -> (r: Self)
        ensures
            r@ == sanitized(raw@),
    {
        TopicResourceLocator(sanitize_name(raw))
    }

    /// Gives up the locator for its name.
    pub fn into_string(self) -> (r: String)
        ensures
            r@ == self@,
    {
        self.0
    }

    /// The display form `[topic|<name>]`.
    pub fn to_string(&self) -> (r: String)
        ensures
            r@ == tagged("topic"@, self@),
    {
        let mut out = String::from_str("[");
        out.append("topic");
        out.append("|");
        out.append(self.0.as_str());
        out.append("]");
        out
    }

    /// A second locator for the same topic.
    pub fn duplicate(&self) -> (r: Self)
        ensures
            r@ == self@,
    {
        TopicResourceLocator(self.0.clone())
    }
}

/// The locator of a sequence: its sanitized name.
#[derive(Debug, Clone)]
pub struct SequenceResourceLocator(String);

impl View for SequenceResourceLocator {
    type V = Seq<char>;

    closed spec fn view(&self) -> Seq<char> {
        self.0@
    }
}

impl SequenceResourceLocator {
    /// The display form `[sequence|<name>]`.
    pub fn to_string(&self) -> (r: String)
        ensures
            r@ == tagged("sequence"@, self@),
    {
        let mut out = String::from_str("[");
        out.append("sequence");
        out.append("|");
        out.append(self.0.as_str());
        out.append("]");
        out
    }

    /// Builds the locator of the sequence named `raw`, in canonical form.
    pub fn from(raw: &str) -> (r: Self)
        ensures
            r@ == sanitized(raw@),
    {
        SequenceResourceLocator(sanitize_name(raw))
    }

    /// Gives up the locator for its name.
    pub fn into_string(self) -> (r: String)
        ensures
            r@ == self@,
    {
        self.0
    }
}

/// The ten decimal digits, in order.
pub open spec fn digit_chars() -> Seq<char> {
    seq!['0', '1', '2', '3', '4', '5', '6', '7', '8', '9']
}

/// The decimal notation of `n`, without leading zeros.
pub open spec fn decimal(n: nat) -> Seq<char>
    decreases n,
{
    if n < 10 {
        seq![digit_chars()[n as int]]
    } else {
        decimal(n / 10).push(digit_chars()[(n % 10) as int])
    }
}

/// `k` zeros.
pub open spec fn zeros(k: nat) -> Seq<char> {
    Seq::new(k, |i: int| '0')
}

/// The decimal notation of `n`, zero-padded to at least five digits, wider when needed.
pub open spec fn padded_index(n: nat) -> Seq<char> {
    let d = decimal(n);
    if d.len() < 5 {
        zeros((5 - d.len()) as nat) + d
    } else {
        d
    }
}

/// The value of a digit character.
pub open spec fn digit_value(c: char) -> nat {
    if c == '1' {
        1
    } else if c == '2' {
        2
    } else if c == '3' {
        3
    } else if c == '4' {
        4
    } else if c == '5' {
        5
    } else if c == '6' {
        6
    } else if c == '7' {
        7
    } else if c == '8' {
        8
    } else if c == '9' {
        9
    } else {
        0
    }
}

/// The number that a string of decimal digits denotes.
pub open spec fn digits_value(s: Seq<char>) -> nat
    decreases s.len(),
{
    if s.len() == 0 {
        0
    } else {
        digits_value(s.drop_last()) * 10 + digit_value(s.last())
    }
}

/// Path of the metadata file of the resource named `name`: `<name>/metadata.json`, or
/// `metadata.json` for an empty name.
pub open spec fn metadata_path(name: Seq<char>) -> Seq<char> {
    if name.len() == 0 {
        "metadata.json"@
    } else {
        name + "/metadata.json"@
    }
}

/// Path of chunk `index` of the resource named `name`: `<name>/data-<index>.<ext>`, or
/// `data-<index>.<ext>` for an empty name.
pub open spec fn chunk_path(name: Seq<char>, index: nat, ext: Seq<char>) -> Seq<char> {
    if name.len() == 0 {
        "data-"@ + padded_index(index) + "."@ + ext
    } else {
        name + "/data-"@ + padded_index(index) + "."@ + ext
    }
}

/// `p` is a prefix of `s`, character for character.
pub open spec fn is_prefix(p: Seq<char>, s: Seq<char>) -> bool {
    p.len() <= s.len() && s.subrange(0, p.len() as int) == p
}

/// The display form of a locator: `[<tag>|<name>]`.
pub open spec fn tagged(tag: Seq<char>, name: Seq<char>) -> Seq<char> {
    "["@ + tag + "|"@ + name + "]"@
}

proof fn lemma_digit_value(d: nat)
    requires
        d < 10,
    ensures
        digit_value(digit_chars()[d as int]) == d,
{
}

proof fn lemma_decimal_value(n: nat)
    ensures
        digits_value(decimal(n)) == n,
        decimal(n).len() >= 1,
    decreases n,
{
    lemma_digit_value(n % 10);
    if n >= 10 {
        lemma_decimal_value(n / 10);
        let d = decimal(n);
        assert(d.drop_last() =~= decimal(n / 10));
        assert(d.last() == digit_chars()[(n % 10) as int]);
        assert(digits_value(d) == digits_value(d.drop_last()) * 10 + digit_value(d.last()));
        assert(n == (n / 10) * 10 + n % 10);
    } else {
        let d = decimal(n);
        assert(d.drop_last() =~= Seq::<char>::empty());
        assert(digits_value(d) == digits_value(d.drop_last()) * 10 + digit_value(d.last()));
        assert(digits_value(Seq::<char>::empty()) == 0);
    }
}

proof fn lemma_leading_zeros_value(k: nat, s: Seq<char>)
    ensures
        digits_value(zeros(k) + s) == digits_value(s),
    decreases s.len() + k,
{
    if s.len() > 0 {
        assert((zeros(k) + s).drop_last() =~= zeros(k) + s.drop_last());
        lemma_leading_zeros_value(k, s.drop_last());
    } else if k > 0 {
        assert(zeros(k) + s =~= zeros(k));
        assert(zeros(k).drop_last() =~= zeros((k - 1) as nat) + s);
        lemma_leading_zeros_value((k - 1) as nat, s);
    } else {
        assert(zeros(k) + s =~= s);
    }
}

/// A chunk number's field is at least five characters wide and reads back as that
/// number: it widens rather than truncates past 99999.
pub proof fn lemma_padded_index_reads_back(n: nat)
    ensures
        padded_index(n).len() >= 5,
        padded_index(n).len() >= decimal(n).len(),
        digits_value(padded_index(n)) == n,
{
    lemma_decimal_value(n);
    if decimal(n).len() < 5 {
        lemma_leading_zeros_value((5 - decimal(n).len()) as nat, decimal(n));
    }
}

/// Distinct chunk numbers of one resource, with one extension, have distinct paths.
pub proof fn lemma_chunk_path_injective(name: Seq<char>, i: nat, j: nat, ext: Seq<char>)
    requires
        chunk_path(name, i, ext) == chunk_path(name, j, ext),
    ensures
        i == j,
{
    let head = if name.len() == 0 {
        "data-"@
    } else {
        name + "/data-"@
    };
    let tail = "."@ + ext;
    let pi = chunk_path(name, i, ext);
    assert(pi =~= head + padded_index(i) + tail);
    assert(chunk_path(name, j, ext) =~= head + padded_index(j) + tail);
    assert(padded_index(i).len() == padded_index(j).len());
    assert(padded_index(i) =~= pi.subrange(head.len() as int, (head.len() + padded_index(i).len()) as int));
    assert(padded_index(j) =~= pi.subrange(head.len() as int, (head.len() + padded_index(j).len()) as int));
    lemma_padded_index_reads_back(i);
    lemma_padded_index_reads_back(j);
}

/// Appends the decimal notation of `n` to `out`.
pub(crate) fn append_decimal(out: &mut String, n: u64)
    ensures
        final(out)@ == old(out)@ + decimal(n as nat),
    decreases n,
{
    if n >= 10 {
        append_decimal(out, n / 10);
    }
    let d = (n % 10) as usize;
    proof {
        reveal_strlit("0123456789");
        assert("0123456789"@ =~= digit_chars());
    }
    let digit = "0123456789".substring_char(d, d + 1);
    proof {
        assert(digit@ =~= seq![digit_chars()[d as int]]);
    }
    out.append(digit);
    proof {
        if n >= 10 {
            assert(decimal(n as nat) == decimal((n / 10) as nat).push(digit_chars()[d as int]));
        }
    }
}

/// The chunk number `index` zero-padded to at least five digits.
fn padded_decimal(index: usize) -> (r: String)
    ensures
        r@ == padded_index(index as nat),
{
    let mut digits = String::new();
    append_decimal(&mut digits, index as u64);
    let width = digits.as_str().unicode_len();
    let mut out = String::new();
    let mut k: usize = width;
    while k < 5
        invariant
            width == decimal(index as nat).len(),
            width <= k <= 5 || k == width,
            out@ == zeros((k - width) as nat),
        decreases 5 - k,
    {
        proof {
            reveal_strlit("0");
        }
        out.append("0");
        proof {
            assert(out@ =~= zeros((k + 1 - width) as nat));
        }
        k = k + 1;
    }
    out.append(digits.as_str());
    proof {
        if width >= 5 {
            assert(out@ =~= decimal(index as nat));
        }
    }
    out
}

/// Whether `p` is a prefix of `s`, character for character.
fn has_prefix(s: &str, p: &str) -> (r: bool)
    ensures
        r == is_prefix(p@, s@),
{
    let ls = s.unicode_len();
    let lp = p.unicode_len();
    if lp > ls {
        return false;
    }
    let mut i: usize = 0;
    while i < lp
        invariant
            lp <= ls,
            ls == s@.len(),
            lp == p@.len(),
            i <= lp,
            forall|j: int| 0 <= j < i ==> s@[j] == p@[j],
        decreases lp - i,
    {
        if s.get_char(i) != p.get_char(i) {
            return false;
        }
        i = i + 1;
    }
    proof {
        assert(s@.subrange(0, lp as int) =~= p@);
    }
    true
}

impl From<TopicResourceLocator> for String {
    fn from(value: TopicResourceLocator) -> (r: String)
        ensures
            r@ == value@,
    {
        value.0
    }
}

impl vstd::std_specs::convert::FromSpecImpl<TopicResourceLocator> for String {
    open spec fn obeys_from_spec() -> bool {
        true
    }

    closed spec fn from_spec(v: TopicResourceLocator) -> String {
        v.0
    }
}

impl From<SequenceResourceLocator> for String {
    fn from(value: SequenceResourceLocator) -> (r: String)
        ensures
            r@ == value@,
    {
        value.0
    }
}

impl vstd::std_specs::convert::FromSpecImpl<SequenceResourceLocator> for String {
    open spec fn obeys_from_spec() -> bool {
        true
    }

    closed spec fn from_spec(v: SequenceResourceLocator) -> String {
        v.0
    }
}

/// What sequences and topics share: a name, a kind, and the paths derived from the name.
pub trait Resource {
    /// The resource's canonical name.
    spec fn resource_name(&self) -> Seq<char>;

    /// The resource's kind.
    spec fn resource_kind(&self) -> ResourceType;

    /// The canonical name.
    fn name(&self) -> (r: &String)
        ensures
            r@ == self.resource_name(),
    ;

    /// The kind, fixed for each locator type.
    fn resource_type(&self) -> (r: ResourceType)
        ensures
            r == self.resource_kind(),
    ;

    /// Location of the resource's metadata file; whether it exists is not checked.
    fn metadata(&self) -> (r: String)
        ensures
            r@ == metadata_path(self.resource_name()),
    {
        let name = self.name();
        if name.as_str().is_empty() {
            String::from_str("metadata.json")
        } else {
            name.clone().concat("/metadata.json")
        }
    }

    /// Location of chunk `chunk_number` of the resource, with the given file extension.
    fn datafile(&self, chunk_number: usize, extension: &str) -> (r: String)
        ensures
            r@ == chunk_path(self.resource_name(), chunk_number as nat, extension@),
    {
        let padded = padded_decimal(chunk_number);
        let name = self.name();
        let mut path = if name.as_str().is_empty() {
            String::from_str("data-")
        } else {
            name.clone().concat("/data-")
        };
        path.append(padded.as_str());
        path.append(".");
        path.append(extension);
        proof {
            if name@.len() == 0 {
                assert(path@ =~= chunk_path(self.resource_name(), chunk_number as nat, extension@));
            } else {
                assert(path@ =~= chunk_path(self.resource_name(), chunk_number as nat, extension@));
            }
        }
        path
    }

}

impl Resource for TopicResourceLocator {
    open spec fn resource_name(&self) -> Seq<char> {
        self@
    }

    open spec fn resource_kind(&self) -> ResourceType {
        ResourceType::Topic
    }

    fn name(&self) -> (r: &String) {
        &self.0
    }

    fn resource_type(&self) -> (r: ResourceType) {
        ResourceType::Topic
    }
}

impl Resource for SequenceResourceLocator {
    open spec fn resource_name(&self) -> Seq<char> {
        self@
    }

    open spec fn resource_kind(&self) -> ResourceType {
        ResourceType::Sequence
    }

    fn name(&self) -> (r: &String) {
        &self.0
    }

    fn resource_type(&self) -> (r: ResourceType) {
        ResourceType::Sequence
    }
}

/// Whether the name of `parent` is a prefix of the name of `resource`. This is a test on
/// characters, not on path segments: `seq1` counts as under `seq`.
pub fn is_sub_resource<R: Resource, P: Resource>(resource: &R, parent: &P) -> (r: bool)
    ensures
        r == is_prefix(parent.resource_name(), resource.resource_name()),
{
    has_prefix(resource.name().as_str(), parent.name().as_str())
}

} // verus!
