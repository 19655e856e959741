//! Distinguished names: ordered attribute-type/value pairs, a builder that
//! validates each entry, and the canonical byte encoding with its parser.

use vstd::prelude::*;
use vstd::string::*;
use vstd::hash_map::StringHashMap;
use crate::errors::CaError;

verus! {

/// Longest attribute value the name builder accepts, in characters.
pub const MAX_ATTRIBUTE_VALUE_LEN: usize = 64;

/// Most entries one distinguished name may carry.
pub const MAX_NAME_ENTRIES: usize = 65535;

/// The attribute types a distinguished name entry may carry.
#[derive(Clone, Copy, PartialEq, Eq, Structural, Debug)]
pub enum AttributeType {
    Country,
    State,
    Locality,
    Organization,
    OrganizationalUnit,
    CommonName,
}

impl AttributeType {
    /// The byte tag of this attribute type in the canonical encoding.
    pub open spec fn spec_tag(self) -> u8 {
        match self {
            AttributeType::Country => 1,
            AttributeType::State => 2,
            AttributeType::Locality => 3,
            AttributeType::Organization => 4,
            AttributeType::OrganizationalUnit => 5,
            AttributeType::CommonName => 6,
        }
    }

    /// The byte tag of this attribute type in the canonical encoding.
    pub fn tag(self) -> (r: u8)
        ensures
            r == self.spec_tag(),
    {
        match self {
            AttributeType::Country => 1,
            AttributeType::State => 2,
            AttributeType::Locality => 3,
            AttributeType::Organization => 4,
            AttributeType::OrganizationalUnit => 5,
            AttributeType::CommonName => 6,
        }
    }

    /// The attribute type a canonical-encoding tag stands for, if any.
    pub open spec fn spec_from_tag(tag: u8) -> Option<AttributeType> {
        if tag == 1 {
            Some(AttributeType::Country)
        } else if tag == 2 {
            Some(AttributeType::State)
        } else if tag == 3 {
            Some(AttributeType::Locality)
        } else if tag == 4 {
            Some(AttributeType::Organization)
        } else if tag == 5 {
            Some(AttributeType::OrganizationalUnit)
        } else if tag == 6 {
            Some(AttributeType::CommonName)
        } else {
            None
        }
    }

    /// The attribute type a canonical-encoding tag stands for, if any.
    pub fn from_tag(tag: u8) -> (r: Option<AttributeType>)
        ensures
            r == AttributeType::spec_from_tag(tag),
    {
        if tag == 1 {
            Some(AttributeType::Country)
        } else if tag == 2 {
            Some(AttributeType::State)
        } else if tag == 3 {
            Some(AttributeType::Locality)
        } else if tag == 4 {
            Some(AttributeType::Organization)
        } else if tag == 5 {
            Some(AttributeType::OrganizationalUnit)
        } else if tag == 6 {
            Some(AttributeType::CommonName)
        } else {
            None
        }
    }

    /// The long display name of this attribute type.
    pub open spec fn spec_long_name(self) -> Seq<char> {
        match self {
            AttributeType::Country => "countryName"@,
            AttributeType::State => "stateOrProvinceName"@,
            AttributeType::Locality => "localityName"@,
            AttributeType::Organization => "organizationName"@,
            AttributeType::OrganizationalUnit => "organizationalUnitName"@,
            AttributeType::CommonName => "commonName"@,
        }
    }

    /// The long display name of this attribute type.
    pub fn long_name(self) -> (r: &'static str)
        ensures
            r@ == self.spec_long_name(),
    {
        match self {
            AttributeType::Country => "countryName",
            AttributeType::State => "stateOrProvinceName",
            AttributeType::Locality => "localityName",
            AttributeType::Organization => "organizationName",
            AttributeType::OrganizationalUnit => "organizationalUnitName",
            AttributeType::CommonName => "commonName",
        }
    }

    /// The attribute type a short textual key stands for, if any.
    pub open spec fn spec_from_key(key: Seq<char>) -> Option<AttributeType> {
        if key == "C"@ {
            Some(AttributeType::Country)
        } else if key == "ST"@ {
            Some(AttributeType::State)
        } else if key == "L"@ {
            Some(AttributeType::Locality)
        } else if key == "O"@ {
            Some(AttributeType::Organization)
        } else if key == "OU"@ {
            Some(AttributeType::OrganizationalUnit)
        } else if key == "CN"@ {
            Some(AttributeType::CommonName)
        } else {
            None
        }
    }

    /// The attribute type a short textual key ("C", "ST", "L", "O", "OU",
    /// "CN") stands for, if any.
    pub fn from_key(key: &str) -> (r: Option<AttributeType>)
        ensures
            r == AttributeType::spec_from_key(key@),
    {
        let k = key.to_owned();
        if k == String::from_str("C") {
            Some(AttributeType::Country)
        } else if k == String::from_str("ST") {
            Some(AttributeType::State)
        } else if k == String::from_str("L") {
            Some(AttributeType::Locality)
        } else if k == String::from_str("O") {
            Some(AttributeType::Organization)
        } else if k == String::from_str("OU") {
            Some(AttributeType::OrganizationalUnit)
        } else if k == String::from_str("CN") {
            Some(AttributeType::CommonName)
        } else {
            None
        }
    }
}

/// Whether a character may appear in an attribute value: the printable
/// ASCII range, space through tilde.
pub open spec fn char_printable(c: char) -> bool {
    0x20 <= (c as u32) && (c as u32) <= 0x7e
}

/// Whether a character sequence is acceptable as an attribute value:
/// non-empty, within the length cap, printable ASCII throughout.
pub open spec fn spec_value_ok(v: Seq<char>) -> bool {
    &&& 1 <= v.len()
    &&& v.len() <= MAX_ATTRIBUTE_VALUE_LEN
    &&& forall|i: int| 0 <= i < v.len() ==> char_printable(#[trigger] v[i])
}

/// Whether an attribute value is acceptable: non-empty, within the length
/// cap, printable ASCII throughout.
pub fn value_ok(value: &str) -> (r: bool)
    ensures
        r == spec_value_ok(value@),
{
    let n = value.unicode_len();
    if n < 1 || n > MAX_ATTRIBUTE_VALUE_LEN {
        return false;
    }
    for i in 0..n
        invariant
            n == value@.len(),
            1 <= n <= MAX_ATTRIBUTE_VALUE_LEN,
            forall|j: int| 0 <= j < i ==> char_printable(#[trigger] value@[j]),
    {
        let c = value.get_char(i);
        let u = c as u32;
        if u < 0x20 || u > 0x7e {
            return false;
        }
    }
    true
}

/// One attribute-type/value pair of a distinguished name.
pub struct NameEntry {
    attr_type: AttributeType,
    value: String,
}

impl View for NameEntry {
    type V = (AttributeType, Seq<char>);

    closed spec fn view(&self) -> (AttributeType, Seq<char>) {
        (self.attr_type, self.value@)
    }
}

impl NameEntry {
    /// The attribute type of this entry.
    pub fn attr_type(&self) -> (r: AttributeType)
        ensures
            r == self@.0,
    {
        self.attr_type
    }

    /// The attribute value of this entry.
    pub fn value(&self) -> (r: &str)
        ensures
            r@ == self@.1,
    {
        self.value.as_str()
    }
}

/// Whether every entry of a name view is acceptable and the entry count is
/// within the cap.
pub open spec fn name_wf(s: Seq<(AttributeType, Seq<char>)>) -> bool {
    &&& s.len() <= MAX_NAME_ENTRIES
    &&& forall|i: int| 0 <= i < s.len() ==> spec_value_ok((#[trigger] s[i]).1)
}

/// An ordered sequence of attribute-type/value pairs. Insertion order is
/// preserved and is part of the canonical encoding.
pub struct DistinguishedName {
    entries: Vec<NameEntry>,
}

impl View for DistinguishedName {
    type V = Seq<(AttributeType, Seq<char>)>;

    closed spec fn view(&self) -> Seq<(AttributeType, Seq<char>)> {
        self.entries@.map_values(|e: NameEntry| e@)
    }
}

impl DistinguishedName {
    /// Whether this name satisfies the entry-count and per-value rules the
    /// builder enforces.
    pub open spec fn wf(&self) -> bool {
        name_wf(self@)
    }

    /// The entries of this name, in insertion order.
    pub fn entries(&self) -> (r: &Vec<NameEntry>)
        ensures
            r@.map_values(|e: NameEntry| e@) == self@,
    {
        &self.entries
    }

    /// The number of entries of this name.
    pub fn entry_count(&self) -> (r: usize)
        ensures
            r == self@.len(),
    {
        self.entries.len()
    }
}

impl Clone for DistinguishedName {
    /// An equal copy of this name.
    fn clone(&self) -> (r: Self)
        ensures
            r@ == self@,
    {
        let n = self.entries.len();
        let mut entries: Vec<NameEntry> = Vec::new();
        proof {
            assert(entries@.map_values(|e: NameEntry| e@) =~= self@.take(0));
        }
        for i in 0..n
            invariant
                n == self.entries@.len(),
                entries@.map_values(|e: NameEntry| e@) == self@.take(i as int),
        {
            let entry = &self.entries[i];
            let copied = NameEntry { attr_type: entry.attr_type, value: entry.value.clone() };
            let ghost pre_map = entries@.map_values(|e: NameEntry| e@);
            let ghost copied_view = copied@;
            proof {
                assert(copied_view == (entry.attr_type, entry.value@));
                assert(copied_view == self@[i as int]);
            }
            entries.push(copied);
            proof {
                assert(entries@.map_values(|e: NameEntry| e@) =~= pre_map.push(copied_view));
                assert(pre_map.push(copied_view) =~= self@.take(i + 1));
            }
        }
        let r = DistinguishedName { entries };
        proof {
            assert(self@.take(n as int) =~= self@);
            assert(r@ == self@);
        }
        r
    }
}

/// Builds a distinguished name entry by entry, validating each one.
pub struct NameBuilder {
    entries: Vec<NameEntry>,
}

impl View for NameBuilder {
    type V = Seq<(AttributeType, Seq<char>)>;

    closed spec fn view(&self) -> Seq<(AttributeType, Seq<char>)> {
        self.entries@.map_values(|e: NameEntry| e@)
    }
}

impl NameBuilder {
    /// A builder with no entries.
    pub fn new() -> (r: NameBuilder)
        ensures
            r@ == Seq::<(AttributeType, Seq<char>)>::empty(),
            name_wf(r@),
    {
        let r = NameBuilder { entries: Vec::new() };
        proof {
            assert(r@ =~= Seq::<(AttributeType, Seq<char>)>::empty());
        }
        r
    }

    /// Appends one validated entry. Rejects an empty, over-long or
    /// non-printable value, and a name already at the entry cap, with
    /// `InvalidAttribute`; on rejection the builder is unchanged.
    pub fn append_entry(&mut self, attr_type: AttributeType, value: &str) -> (r: Result<
        (),
        CaError,
    >)
        requires
            name_wf(old(self)@),
        ensures
            name_wf(final(self)@),
            r is Ok <==> spec_value_ok(value@) && old(self)@.len() < MAX_NAME_ENTRIES,
            r is Ok ==> final(self)@ == old(self)@.push((attr_type, value@)),
            r is Err ==> final(self)@ == old(self)@ && r == Err::<(), CaError>(
                CaError::InvalidAttribute,
            ),
    {
        if !value_ok(value) || self.entries.len() >= MAX_NAME_ENTRIES {
            return Err(CaError::InvalidAttribute);
        }
        let entry = NameEntry { attr_type, value: value.to_owned() };
        self.entries.push(entry);
        proof {
            assert(self@ =~= old(self)@.push((attr_type, value@)));
        }
        Ok(())
    }

    /// Appends one entry given by its short textual key. Rejects an
    /// unrecognized key with `InvalidAttribute`.
    pub fn append_entry_by_text(&mut self, key: &str, value: &str) -> (r: Result<(), CaError>)
        requires
            name_wf(old(self)@),
        ensures
            name_wf(final(self)@),
            r is Ok <==> AttributeType::spec_from_key(key@) is Some && spec_value_ok(value@)
                && old(self)@.len() < MAX_NAME_ENTRIES,
            r is Ok ==> final(self)@ == old(self)@.push(
                (AttributeType::spec_from_key(key@)->0, value@),
            ),
            r is Err ==> final(self)@ == old(self)@ && r == Err::<(), CaError>(
                CaError::InvalidAttribute,
            ),
    {
        match AttributeType::from_key(key) {
            Some(t) => self.append_entry(t, value),
            None => Err(CaError::InvalidAttribute),
        }
    }

    /// Seals the builder into an immutable distinguished name holding the
    /// appended entries in order.
    pub fn build(self) -> (r: DistinguishedName)
        requires
            name_wf(self@),
        ensures
            r@ == self@,
            r.wf(),
    {
        DistinguishedName { entries: self.entries }
    }
}

/// The entries of a name as a map from long attribute name to value; a
/// later entry of the same type overwrites an earlier one.
pub open spec fn spec_attr_map(s: Seq<(AttributeType, Seq<char>)>) -> Map<Seq<char>, Seq<char>>
    decreases s.len(),
{
    if s.len() == 0 {
        Map::empty()
    } else {
        spec_attr_map(s.drop_last()).insert(s.last().0.spec_long_name(), s.last().1)
    }
}

/// A map of strings, seen as a map of their character sequences.
pub open spec fn viewed_string_map(m: Map<Seq<char>, String>) -> Map<Seq<char>, Seq<char>> {
    Map::new(|k: Seq<char>| m.contains_key(k), |k: Seq<char>| m[k]@)
}

impl DistinguishedName {
    /// The entries as a map from long attribute name ("countryName",
    /// "commonName", ...) to value; a later entry of the same type
    /// overwrites an earlier one.
    pub fn to_hash_map(&self) -> (r: StringHashMap<String>)
        ensures
            viewed_string_map(r@) == spec_attr_map(self@),
    {
        let n = self.entries.len();
        let mut result = StringHashMap::<String>::new();
        proof {
            assert(self@.take(0) =~= Seq::<(AttributeType, Seq<char>)>::empty());
            assert(viewed_string_map(result@) =~= spec_attr_map(self@.take(0)));
        }
        for i in 0..n
            invariant
                n == self@.len(),
                viewed_string_map(result@) == spec_attr_map(self@.take(i as int)),
        {
            let e = &self.entries[i];
            let key: String = e.attr_type.long_name().to_owned();
            let value: String = e.value.clone();
            let ghost gk = key@;
            let ghost gv = value@;
            let ghost pre = result@;
            proof {
                assert(self@[i as int] == (e.attr_type, e.value@));
                assert(gk == e.attr_type.spec_long_name());
                assert(gv == e.value@);
            }
            result.insert(key, value);
            proof {
                assert(self@.take(i + 1).drop_last() =~= self@.take(i as int));
                assert(self@.take(i + 1).last() == self@[i as int]);
                assert(spec_attr_map(self@.take(i + 1)) == spec_attr_map(
                    self@.take(i as int),
                ).insert(gk, e.value@));
                assert(viewed_string_map(result@) =~= viewed_string_map(pre).insert(gk, gv));
            }
        }
        proof {
            assert(self@.take(n as int) =~= self@);
        }
        result
    }
}

/// Builds a distinguished name from ordered attribute-type/value pairs.
/// Order is preserved exactly as given. Rejects any invalid value with
/// `InvalidAttribute`, returning no name.
pub fn build_name(entries: &Vec<(AttributeType, String)>) -> (r: Result<DistinguishedName, CaError>)
    ensures
        r is Ok <==> entries@.len() <= MAX_NAME_ENTRIES && (forall|i: int|
            0 <= i < entries@.len() ==> spec_value_ok((#[trigger] entries@[i]).1@)),
        r is Ok ==> (r->Ok_0)@ == entries@.map_values(|p: (AttributeType, String)| (p.0, p.1@))
            && (r->Ok_0).wf(),
        r is Err ==> r == Err::<DistinguishedName, CaError>(CaError::InvalidAttribute),
{
    let ghost target = entries@.map_values(|p: (AttributeType, String)| (p.0, p.1@));
    if entries.len() > MAX_NAME_ENTRIES {
        return Err(CaError::InvalidAttribute);
    }
    let mut builder = NameBuilder::new();
    for i in 0..entries.len()
        invariant
            name_wf(builder@),
            builder@ == target.take(i as int),
            target.len() == entries@.len() <= MAX_NAME_ENTRIES,
            forall|j: int| 0 <= j < entries@.len() ==> target[j] == (
                (#[trigger] entries@[j]).0,
                entries@[j].1@,
            ),
            forall|j: int| 0 <= j < i ==> spec_value_ok((#[trigger] entries@[j]).1@),
    {
        let (t, v) = (entries[i].0, entries[i].1.as_str());
        match builder.append_entry(t, v) {
            Ok(()) => {
                proof {
                    assert(builder@ =~= target.take(i + 1));
                }
            },
            Err(e) => {
                return Err(e);
            },
        }
    }
    proof {
        assert(builder@ =~= target);
    }
    Ok(builder.build())
}

/// The conventional root name of the authority operated by Rymeon:
/// country, state, organization and common name, in that order.
pub fn build_root_name() -> (r: Result<DistinguishedName, CaError>)
    ensures
        r is Ok,
        (r->Ok_0)@ == seq![
            (AttributeType::Country, "US"@),
            (AttributeType::State, "CA"@),
            (AttributeType::Organization, "Rymeon"@),
            (AttributeType::CommonName, "Rymeon Root CA"@),
        ],
        (r->Ok_0).wf(),
{
    proof {
        reveal_strlit("US");
        reveal_strlit("CA");
        reveal_strlit("Rymeon");
        reveal_strlit("Rymeon Root CA");
    }
    let mut builder = NameBuilder::new();
    let r1 = builder.append_entry(AttributeType::Country, "US");
    let r2 = builder.append_entry(AttributeType::State, "CA");
    let r3 = builder.append_entry(AttributeType::Organization, "Rymeon");
    let r4 = builder.append_entry(AttributeType::CommonName, "Rymeon Root CA");
    if r1.is_err() || r2.is_err() || r3.is_err() || r4.is_err() {
        return Err(CaError::InvalidAttribute);
    }
    proof {
        assert(builder@ =~= seq![
            (AttributeType::Country, "US"@),
            (AttributeType::State, "CA"@),
            (AttributeType::Organization, "Rymeon"@),
            (AttributeType::CommonName, "Rymeon Root CA"@),
        ]);
    }
    Ok(builder.build())
}

/// The canonical encoding of one name entry: the attribute tag, one length
/// byte, then the value characters as bytes.
pub open spec fn spec_encode_entry(e: (AttributeType, Seq<char>)) -> Seq<u8> {
    seq![e.0.spec_tag(), e.1.len() as u8] + e.1.map_values(|c: char| c as u8)
}

/// The canonical encoding of a sequence of name entries, in order.
pub open spec fn spec_encode_entries(s: Seq<(AttributeType, Seq<char>)>) -> Seq<u8>
    decreases s.len(),
{
    if s.len() == 0 {
        Seq::empty()
    } else {
        spec_encode_entry(s[0]) + spec_encode_entries(s.drop_first())
    }
}

/// The canonical encoding of a whole name: a two-byte big-endian entry
/// count, then the entries in order.
pub open spec fn spec_encode_name(s: Seq<(AttributeType, Seq<char>)>) -> Seq<u8> {
    seq![(s.len() / 256) as u8, (s.len() % 256) as u8] + spec_encode_entries(s)
}

/// Prepends already-parsed entries to the outcome of parsing a tail.
pub open spec fn prepend_parsed(
    prefix: Seq<(AttributeType, Seq<char>)>,
    rest: Option<Seq<(AttributeType, Seq<char>)>>,
) -> Option<Seq<(AttributeType, Seq<char>)>> {
    match rest {
        Some(r) => Some(prefix + r),
        None => None,
    }
}

/// Parses exactly `n` canonical entries out of `b`, requiring that `b` is
/// wholly consumed.
pub open spec fn spec_parse_entries(b: Seq<u8>, n: nat) -> Option<Seq<(AttributeType, Seq<char>)>>
    decreases n,
{
    if n == 0 {
        if b.len() == 0 {
            Some(Seq::empty())
        } else {
            None
        }
    } else if b.len() < 2 {
        None
    } else {
        let t = AttributeType::spec_from_tag(b[0]);
        let l = b[1] as int;
        if t is None || l < 1 || l > MAX_ATTRIBUTE_VALUE_LEN || b.len() < 2 + l {
            None
        } else {
            let v = b.subrange(2, 2 + l).map_values(|x: u8| x as char);
            if !spec_value_ok(v) {
                None
            } else {
                prepend_parsed(seq![(t->0, v)], spec_parse_entries(b.skip(2 + l), (n - 1) as nat))
            }
        }
    }
}

/// Parses the canonical encoding of a whole name.
pub open spec fn spec_parse_name(b: Seq<u8>) -> Option<Seq<(AttributeType, Seq<char>)>> {
    if b.len() < 2 {
        None
    } else {
        spec_parse_entries(b.skip(2), ((b[0] as nat) * 256 + (b[1] as nat)) as nat)
    }
}

/// A printable character survives the cast to a byte and back.
proof fn lemma_printable_byte_char(c: char)
    requires
        char_printable(c),
    ensures
        (c as u8) as char == c,
{
    vstd::utf8::char_u32_cast(c, c as u32);
    assert((c as u8) as u32 == c as u32);
}

/// For a printable value the UTF-8 encoding is one byte per character,
/// each byte the character itself.
proof fn lemma_printable_encode_utf8(v: Seq<char>)
    requires
        forall|i: int| 0 <= i < v.len() ==> char_printable(#[trigger] v[i]),
    ensures
        vstd::utf8::encode_utf8(v) =~= v.map_values(|c: char| c as u8),
{
    assert(vstd::utf8::is_ascii_chars(v)) by {
        assert forall|i: int| 0 <= i < v.len() implies '\0' <= #[trigger] v[i] <= '\u{7f}' by {
            vstd::utf8::char_u32_cast(v[i], v[i] as u32);
        }
    }
    vstd::utf8::is_ascii_chars_encode_utf8(v);
}

/// Appending an entry extends the canonical encoding at its end.
pub proof fn lemma_encode_entries_push(
    s: Seq<(AttributeType, Seq<char>)>,
    e: (AttributeType, Seq<char>),
)
    ensures
        spec_encode_entries(s.push(e)) == spec_encode_entries(s) + spec_encode_entry(e),
    decreases s.len(),
{
    if s.len() == 0 {
        let emp = Seq::<(AttributeType, Seq<char>)>::empty();
        assert(s.push(e)[0] == e);
        assert(s.push(e).drop_first() =~= emp);
        assert(spec_encode_entries(emp) == Seq::<u8>::empty());
        assert(spec_encode_entries(s.push(e)) == spec_encode_entry(e) + spec_encode_entries(emp));
        assert(spec_encode_entries(s.push(e)) =~= spec_encode_entries(s) + spec_encode_entry(e));
    } else {
        assert(s.push(e)[0] == s[0]);
        assert(s.push(e).drop_first() =~= s.drop_first().push(e));
        lemma_encode_entries_push(s.drop_first(), e);
        assert(spec_encode_entries(s.push(e)) == spec_encode_entry(s[0]) + spec_encode_entries(
            s.drop_first().push(e),
        ));
        assert(spec_encode_entries(s) == spec_encode_entry(s[0]) + spec_encode_entries(
            s.drop_first(),
        ));
        assert(spec_encode_entries(s.push(e)) =~= spec_encode_entries(s) + spec_encode_entry(e));
    }
}

/// Parsing undoes encoding, entry sequence by entry sequence.
proof fn lemma_parse_encode_entries(s: Seq<(AttributeType, Seq<char>)>)
    requires
        forall|i: int| 0 <= i < s.len() ==> spec_value_ok((#[trigger] s[i]).1),
    ensures
        spec_parse_entries(spec_encode_entries(s), s.len()) == Some(s),
    decreases s.len(),
{
    if s.len() == 0 {
    } else {
        let e = s[0];
        let l = e.1.len() as int;
        let head = spec_encode_entry(e);
        let rest = spec_encode_entries(s.drop_first());
        let b = head + rest;
        assert(spec_encode_entries(s) == b);
        assert(head.len() == 2 + l);
        assert(b[0] == e.0.spec_tag());
        assert(b[1] == l as u8);
        assert(AttributeType::spec_from_tag(e.0.spec_tag()) == Some(e.0));
        assert(1 <= l <= MAX_ATTRIBUTE_VALUE_LEN);
        assert(b[1] as int == l);
        let v = b.subrange(2, 2 + l).map_values(|x: u8| x as char);
        assert(b.subrange(2, 2 + l) =~= e.1.map_values(|c: char| c as u8));
        assert(v =~= e.1) by {
            assert forall|i: int| 0 <= i < l implies v[i] == e.1[i] by {
                lemma_printable_byte_char(e.1[i]);
            }
        }
        assert(b.skip(2 + l) =~= rest);
        lemma_parse_encode_entries(s.drop_first());
        assert(seq![(e.0, e.1)] + s.drop_first() =~= s);
        assert(spec_parse_entries(b, s.len()) == Some(s));
    }
}

/// Building a name and re-parsing its canonical encoding yields the same
/// ordered entry sequence: the encoding round-trips for every name the
/// builder accepts.
pub proof fn lemma_name_encode_round_trip(s: Seq<(AttributeType, Seq<char>)>)
    requires
        name_wf(s),
    ensures
        spec_parse_name(spec_encode_name(s)) == Some(s),
{
    let b = spec_encode_name(s);
    let n = s.len();
    assert(b[0] == (n / 256) as u8);
    assert(b[1] == (n % 256) as u8);
    assert(n / 256 <= 255 && n % 256 <= 255) by {
        assert(n <= 65535);
    }
    assert((b[0] as nat) * 256 + (b[1] as nat) == n) by {
        assert(n == (n / 256) * 256 + n % 256);
    }
    assert(b.skip(2) =~= spec_encode_entries(s));
    lemma_parse_encode_entries(s);
}

/// Relies on std's String::from_utf8: ASCII bytes decode to one character
/// per byte, each character the byte's own code point.
#[verifier::external_body]
fn string_from_ascii(v: Vec<u8>) -> (r: String)
    requires
        forall|i: int| 0 <= i < v@.len() ==> v@[i] < 128,
    ensures
        r@ == v@.map_values(|b: u8| b as char),
{
    match String::from_utf8(v) {
        Ok(s) => s,
        Err(_) => String::new(),
    }
}

/// Whether every byte lies in the printable ASCII range.
fn bytes_printable(v: &Vec<u8>) -> (r: bool)
    ensures
        r == (forall|i: int| 0 <= i < v@.len() ==> 0x20 <= #[trigger] v@[i] <= 0x7e),
{
    for j in 0..v.len()
        invariant
            forall|m: int| 0 <= m < j ==> 0x20 <= #[trigger] v@[m] <= 0x7e,
    {
        let b = v[j];
        if b < 0x20 || b > 0x7e {
            return false;
        }
    }
    true
}

/// Prepending entries one at a time agrees with prepending them in a batch.
proof fn lemma_prepend_push(
    a: Seq<(AttributeType, Seq<char>)>,
    e: (AttributeType, Seq<char>),
    rest: Option<Seq<(AttributeType, Seq<char>)>>,
)
    ensures
        prepend_parsed(a, prepend_parsed(seq![e], rest)) == prepend_parsed(a.push(e), rest),
{
    match rest {
        Some(r) => {
            assert(a + (seq![e] + r) =~= a.push(e) + r);
        },
        None => {},
    }
}

impl DistinguishedName {
    /// Parses the canonical byte encoding back into a name; `None` exactly
    /// on byte sequences that no well-formed name encodes to.
    pub fn parse(bytes: &Vec<u8>) -> (r: Option<DistinguishedName>)
        ensures
            match r {
                Some(dn) => spec_parse_name(bytes@) == Some(dn@) && dn.wf(),
                None => spec_parse_name(bytes@) is None,
            },
    {
        if bytes.len() < 2 {
            return None;
        }
        let n: usize = (bytes[0] as usize) * 256 + (bytes[1] as usize);
        let mut pos: usize = 2;
        let mut builder = NameBuilder::new();
        proof {
            assert(bytes@.skip(2) == bytes@.skip(pos as int));
        }
        for k in 0..n
            invariant
                2 <= pos <= bytes@.len(),
                builder@.len() == k,
                k <= n <= 65535,
                name_wf(builder@),
                spec_parse_name(bytes@) == prepend_parsed(
                    builder@,
                    spec_parse_entries(bytes@.skip(pos as int), (n - k) as nat),
                ),
        {
            let ghost tail = bytes@.skip(pos as int);
            proof {
                assert(tail.len() == bytes@.len() - pos);
            }
            if bytes.len() - pos < 2 {
                return None;
            }
            let tag = bytes[pos];
            let l = bytes[pos + 1] as usize;
            proof {
                assert(tail[0] == bytes@[pos as int]);
                assert(tail[1] == bytes@[pos as int + 1]);
            }
            let t = match AttributeType::from_tag(tag) {
                Some(t) => t,
                None => {
                    return None;
                },
            };
            if l < 1 || l > MAX_ATTRIBUTE_VALUE_LEN || bytes.len() - pos < 2 + l {
                return None;
            }
            let vb = vstd::slice::slice_to_vec(&bytes.as_slice()[pos + 2..pos + 2 + l]);
            let ghost v = tail.subrange(2, 2 + l as int).map_values(|x: u8| x as char);
            proof {
                assert(vb@ =~= tail.subrange(2, 2 + l as int));
                assert(v.len() == l);
            }
            if !bytes_printable(&vb) {
                proof {
                    let m = choose|m: int|
                        0 <= m < vb@.len() && !(0x20 <= #[trigger] vb@[m] <= 0x7e);
                    assert(v[m] == (vb@[m] as char));
                    assert(!char_printable(v[m]));
                }
                return None;
            }
            proof {
                assert forall|m: int| 0 <= m < v.len() implies char_printable(#[trigger] v[m]) by {
                    assert(0x20 <= vb@[m] <= 0x7e);
                    assert(v[m] == (vb@[m] as char));
                }
                assert(spec_value_ok(v));
            }
            let value = string_from_ascii(vb);
            proof {
                assert(value@ =~= v);
            }
            let ghost pre = builder@;
            match builder.append_entry(t, value.as_str()) {
                Ok(()) => {},
                Err(_) => {
                    return None;
                },
            }
            pos = pos + 2 + l;
            proof {
                assert(tail.skip(2 + l as int) =~= bytes@.skip(pos as int));
                lemma_prepend_push(
                    pre,
                    (t, v),
                    spec_parse_entries(bytes@.skip(pos as int), (n - k - 1) as nat),
                );
            }
        }
        if pos != bytes.len() {
            proof {
                assert(bytes@.skip(pos as int).len() > 0);
            }
            return None;
        }
        proof {
            assert(bytes@.skip(pos as int).len() == 0);
            assert(builder@ + Seq::<(AttributeType, Seq<char>)>::empty() =~= builder@);
        }
        Some(builder.build())
    }

    /// The canonical byte encoding of this name: a two-byte big-endian
    /// entry count, then each entry as tag, length and value bytes.
    pub fn encode(&self) -> (r: Vec<u8>)
        requires
            self.wf(),
        ensures
            r@ == spec_encode_name(self@),
    {
        let n = self.entries.len();
        let mut out: Vec<u8> = Vec::new();
        out.push((n / 256) as u8);
        out.push((n % 256) as u8);
        let ghost header = seq![(n / 256) as u8, (n % 256) as u8];
        proof {
            assert(out@ =~= header + spec_encode_entries(self@.take(0)));
        }
        for i in 0..n
            invariant
                self.wf(),
                n == self@.len(),
                out@ == header + spec_encode_entries(self@.take(i as int)),
        {
            let e = &self.entries[i];
            proof {
                assert(self@[i as int] == (e.attr_type, e.value@));
                assert(spec_value_ok(self@[i as int].1));
            }
            out.push(e.attr_type.tag());
            let l = e.value.as_str().unicode_len();
            out.push(l as u8);
            let mut vb = e.value.as_str().as_bytes_vec();
            proof {
                lemma_printable_encode_utf8(e.value@);
                assert(vb@ =~= e.value@.map_values(|c: char| c as u8));
            }
            out.append(&mut vb);
            proof {
                lemma_encode_entries_push(self@.take(i as int), self@[i as int]);
                assert(self@.take(i + 1) =~= self@.take(i as int).push(self@[i as int]));
                assert(out@ =~= header + spec_encode_entries(self@.take(i + 1)));
            }
        }
        proof {
            assert(self@.take(n as int) =~= self@);
        }
        out
    }
}

} // verus!
