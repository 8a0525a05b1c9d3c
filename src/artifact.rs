use vstd::prelude::*;
use crate::assembler::{data_words, Assembler, PRIME};
use crate::text::concat;

verus! {

#[verifier::external_type_specification]
#[verifier::external_body]
pub struct ExJsonValue(json::JsonValue);

/// A lower-case hexadecimal digit.
pub open spec fn hex_digit(d: nat) -> char {
    if d < 10 {
        (('0' as nat) + d) as char
    } else {
        (('a' as nat) + d - 10) as char
    }
}

/// The hexadecimal digits of `n`, without leading zeros.
pub open spec fn hex_digits(n: nat) -> Seq<char>
    decreases n,
{
    if n < 16 {
        seq![hex_digit(n)]
    } else {
        hex_digits(n / 16).push(hex_digit(n % 16))
    }
}

/// `n` written as `0x` followed by its hexadecimal digits.
pub open spec fn hex_text(n: u64) -> Seq<char> {
    seq!['0', 'x'] + hex_digits(n as nat)
}

/// Relies on std's `{:#x}` formatting: `0x`, then the lower-case digits
/// without leading zeros.
#[verifier::external_body]
pub(crate) fn hex_word(n: u64) -> (r: String)
    ensures
        r@ == hex_text(n),
{
    format!("{:#x}", n)
}

/// What a JSON value holds: members of an object in the order they were
/// first set, items of an array in order, and a number's sign category,
/// mantissa and decimal exponent as the json crate stores them.
pub enum JsonSpec {
    Null,
    Boolean(bool),
    Number { category: u8, mantissa: u64, exponent: i16 },
    Text(Seq<char>),
    Array(Seq<JsonSpec>),
    Object(Seq<(Seq<char>, JsonSpec)>),
}

/// What a `json::JsonValue` holds.
pub uninterp spec fn json_view(v: json::JsonValue) -> JsonSpec;

/// The compact JSON text of a value; it depends on the value alone.
pub uninterp spec fn dump_text(v: JsonSpec) -> Seq<char>;

/// The object `o` with member `key` set to `v`: replaced in place where the
/// key is present, appended where it is not. Anything but an object is
/// first replaced by an empty object.
pub open spec fn set_member(o: JsonSpec, key: Seq<char>, v: JsonSpec) -> JsonSpec {
    match o {
        JsonSpec::Object(members) => if exists|i: int| 0 <= i < members.len() && members[i].0 == key {
            let i = choose|i: int|
                0 <= i < members.len() && members[i].0 == key && forall|j: int|
                    0 <= j < i ==> members[j].0 != key;
            JsonSpec::Object(members.update(i, (key, v)))
        } else {
            JsonSpec::Object(members.push((key, v)))
        },
        _ => JsonSpec::Object(seq![(key, v)]),
    }
}

/// The array `a` with `v` appended; anything but an array is left as it is.
pub open spec fn push_item(a: JsonSpec, v: JsonSpec) -> JsonSpec {
    match a {
        JsonSpec::Array(items) => JsonSpec::Array(items.push(v)),
        _ => a,
    }
}

/// Relies on `json::JsonValue::new_object`: an empty object.
#[verifier::external_body]
fn json_object() -> (r: json::JsonValue)
    ensures
        json_view(r) == JsonSpec::Object(Seq::empty()),
{
    json::JsonValue::new_object()
}

/// Relies on `json::JsonValue::new_array`: an empty array.
#[verifier::external_body]
fn json_array() -> (r: json::JsonValue)
    ensures
        json_view(r) == JsonSpec::Array(Seq::empty()),
{
    json::JsonValue::new_array()
}

/// Relies on `From<&str> for json::JsonValue`: a JSON string.
#[verifier::external_body]
fn json_text(s: &str) -> (r: json::JsonValue)
    ensures
        json_view(r) == JsonSpec::Text(s@),
{
    json::JsonValue::from(s)
}

/// Relies on `From<u64> for json::JsonValue`: a positive number with
/// mantissa `n` and exponent 0.
#[verifier::external_body]
fn json_number(n: u64) -> (r: json::JsonValue)
    ensures
        json_view(r) == (JsonSpec::Number { category: 1, mantissa: n, exponent: 0 }),
{
    json::JsonValue::from(n)
}

/// Relies on `IndexMut<&str> for json::JsonValue` (and on `Object`'s): sets
/// member `key` of an object, in place or at the end.
#[verifier::external_body]
fn json_set(object: &mut json::JsonValue, key: &str, value: json::JsonValue)
    ensures
        json_view(*final(object)) == set_member(json_view(*old(object)), key@, json_view(value)),
{
    object[key] = value;
}

/// Relies on `json::JsonValue::push`: appends to an array, and leaves any
/// other value as it is.
#[verifier::external_body]
fn json_push(array: &mut json::JsonValue, value: json::JsonValue)
    ensures
        json_view(*final(array)) == push_item(json_view(*old(array)), json_view(value)),
{
    let _ = array.push(value);
}

/// Relies on `json::JsonValue::dump`: the compact JSON text of a value.
#[verifier::external_body]
fn json_dump(value: &json::JsonValue) -> (r: String)
    ensures
        r@ == dump_text(json_view(*value)),
{
    value.dump()
}

/// The member list of the JSON object for one function.
pub open spec fn identifier_entry(pc: u64) -> JsonSpec {
    JsonSpec::Object(
        seq![
            ("decorators"@, JsonSpec::Array(Seq::empty())),
            ("pc"@, JsonSpec::Number { category: 1, mantissa: pc, exponent: 0 }),
            ("type"@, JsonSpec::Text("function"@)),
        ],
    )
}

/// One member per function, keyed by its qualified name.
pub open spec fn identifier_members(entries: Seq<(String, u64)>) -> Seq<(Seq<char>, JsonSpec)> {
    Seq::new(
        entries.len(),
        |i: int| (main_scope() + seq!['.'] + entries[i].0@, identifier_entry(entries[i].1)),
    )
}

/// Each data word in hexadecimal.
pub open spec fn hex_items(words: Seq<u64>) -> Seq<JsonSpec> {
    Seq::new(words.len(), |i: int| JsonSpec::Text(hex_text(words[i])))
}

/// The program artifact for the given data words and labelled addresses.
pub open spec fn artifact_spec(words: Seq<u64>, entries: Seq<(String, u64)>) -> JsonSpec {
    JsonSpec::Object(
        seq![
            ("attributes"@, JsonSpec::Array(Seq::empty())),
            ("builtins"@, JsonSpec::Array(Seq::empty())),
            ("compiler_version"@, JsonSpec::Text("0.1"@)),
            ("data"@, JsonSpec::Array(hex_items(words))),
            ("hints"@, JsonSpec::Object(Seq::empty())),
            ("identifiers"@, JsonSpec::Object(identifier_members(entries))),
            ("main_scope"@, JsonSpec::Text(main_scope())),
            ("prime"@, JsonSpec::Text("0x7fffffff"@)),
            ("reference_manager"@, JsonSpec::Object(seq![("references"@, JsonSpec::Array(Seq::empty()))])),
        ],
    )
}

proof fn lemma_member_keys_distinct()
    ensures
        "attributes"@ != "builtins"@,
        "attributes"@ != "compiler_version"@,
        "attributes"@ != "data"@,
        "attributes"@ != "hints"@,
        "attributes"@ != "identifiers"@,
        "attributes"@ != "main_scope"@,
        "attributes"@ != "prime"@,
        "attributes"@ != "reference_manager"@,
        "builtins"@ != "compiler_version"@,
        "builtins"@ != "data"@,
        "builtins"@ != "hints"@,
        "builtins"@ != "identifiers"@,
        "builtins"@ != "main_scope"@,
        "builtins"@ != "prime"@,
        "builtins"@ != "reference_manager"@,
        "compiler_version"@ != "data"@,
        "compiler_version"@ != "hints"@,
        "compiler_version"@ != "identifiers"@,
        "compiler_version"@ != "main_scope"@,
        "compiler_version"@ != "prime"@,
        "compiler_version"@ != "reference_manager"@,
        "data"@ != "hints"@,
        "data"@ != "identifiers"@,
        "data"@ != "main_scope"@,
        "data"@ != "prime"@,
        "data"@ != "reference_manager"@,
        "hints"@ != "identifiers"@,
        "hints"@ != "main_scope"@,
        "hints"@ != "prime"@,
        "hints"@ != "reference_manager"@,
        "identifiers"@ != "main_scope"@,
        "identifiers"@ != "prime"@,
        "identifiers"@ != "reference_manager"@,
        "main_scope"@ != "prime"@,
        "main_scope"@ != "reference_manager"@,
        "prime"@ != "reference_manager"@,
        "decorators"@ != "pc"@,
        "decorators"@ != "type"@,
        "pc"@ != "type"@,
{
    reveal_strlit("attributes");
    reveal_strlit("builtins");
    reveal_strlit("compiler_version");
    reveal_strlit("data");
    reveal_strlit("hints");
    reveal_strlit("identifiers");
    reveal_strlit("main_scope");
    reveal_strlit("prime");
    reveal_strlit("reference_manager");
    reveal_strlit("decorators");
    reveal_strlit("pc");
    reveal_strlit("type");
    assert("attributes"@[0] == 'a');
    assert("builtins"@[0] == 'b');
    assert("compiler_version"@[0] == 'c');
    assert("data"@[0] == 'd');
    assert("hints"@[0] == 'h');
    assert("identifiers"@[0] == 'i');
    assert("main_scope"@[0] == 'm');
    assert("prime"@[0] == 'p');
    assert("reference_manager"@[0] == 'r');
    assert("decorators"@[0] == 'd');
    assert("pc"@[0] == 'p');
    assert("type"@[0] == 't');
}

/// The prime is written `0x7fffffff`.
pub proof fn lemma_prime_text()
    ensures
        hex_text(PRIME) == "0x7fffffff"@,
{
    reveal_strlit("0x7fffffff");
    reveal_with_fuel(hex_digits, 9);
    assert(hex_text(PRIME) =~= "0x7fffffff"@);
}

/// Setting a key that no member has appends it.
proof fn lemma_set_new_member(members: Seq<(Seq<char>, JsonSpec)>, key: Seq<char>, v: JsonSpec)
    requires
        forall|i: int| 0 <= i < members.len() ==> #[trigger] members[i].0 != key,
    ensures
        set_member(JsonSpec::Object(members), key, v) == JsonSpec::Object(members.push((key, v))),
{
}

/// The scope under which the program's functions are listed.
pub open spec fn main_scope() -> Seq<char> {
    seq!['_', '_', 'm', 'a', 'i', 'n', '_', '_']
}

impl Assembler {
    /// The data words of the encoded program, each in hexadecimal.
    pub fn hex_data(&self) -> (r: Vec<String>)
        requires
            self.wf(),
        ensures
            r@.len() == data_words(self.instructions@).len(),
            forall|i: int| 0 <= i < r@.len() ==> #[trigger] r@[i]@ == hex_text(data_words(self.instructions@)[i]),
    {
        let words = self.data();
        let mut r: Vec<String> = Vec::new();
        let mut i: usize = 0;
        while i < words.len()
            invariant
                i <= words@.len(),
                words@ == data_words(self.instructions@),
                r@.len() == i,
                forall|j: int| 0 <= j < i ==> #[trigger] r@[j]@ == hex_text(words@[j]),
            decreases words@.len() - i,
        {
            r.push(hex_word(words[i]));
            i = i + 1;
        }
        r
    }

    /// Each label with its address, the label qualified by the main scope
    /// (`__main__.f`).
    pub fn identifiers(&self) -> (r: Vec<(String, u64)>)
        requires
            self.wf(),
        ensures
            r@.len() == self.function_addresses.entries_spec().len(),
            forall|i: int| 0 <= i < r@.len() ==> {
                let (label, pc) = #[trigger] self.function_addresses.entries_spec()[i];
                &&& r@[i].0@ == main_scope() + seq!['.'] + label@
                &&& r@[i].1 == pc
                &&& self.function_addresses@[label@] == pc
            },
    {
        let entries = self.function_addresses.entries();
        let mut r: Vec<(String, u64)> = Vec::new();
        let mut i: usize = 0;
        while i < entries.len()
            invariant
                i <= entries@.len(),
                self.wf(),
                entries@ == self.function_addresses.entries_spec(),
                r@.len() == i,
                forall|j: int| 0 <= j < i ==> {
                    let (label, pc) = #[trigger] entries@[j];
                    &&& r@[j].0@ == main_scope() + seq!['.'] + label@
                    &&& r@[j].1 == pc
                    &&& self.function_addresses@[label@] == pc
                },
            decreases entries@.len() - i,
        {
            let name = concat("__main__.", entries[i].0.as_str());
            proof {
                reveal_strlit("__main__.");
                assert("__main__."@ =~= main_scope() + seq!['.']);
                self.function_addresses.lemma_entry(i as int);
            }
            r.push((name, entries[i].1));
            i = i + 1;
        }
        r
    }

    /// The program artifact: the data words in hexadecimal and, for each
    /// function, its address, with the fixed header fields of the format.
    pub fn to_json(&self) -> (r: String)
        requires
            self.wf(),
        ensures
            r@ == dump_text(
                artifact_spec(data_words(self.instructions@), self.function_addresses.entries_spec()),
            ),
    {
        proof {
            lemma_member_keys_distinct();
        }
        let ghost words_spec = data_words(self.instructions@);
        let ghost entries = self.function_addresses.entries_spec();
        let ghost empty_array = JsonSpec::Array(Seq::empty());
        let mut data = json_object();
        let ghost m0 = Seq::<(Seq<char>, JsonSpec)>::empty();
        json_set(&mut data, "attributes", json_array());
        let ghost m1 = m0.push(("attributes"@, empty_array));
        proof {
            lemma_set_new_member(m0, "attributes"@, empty_array);
        }
        json_set(&mut data, "builtins", json_array());
        let ghost m2 = m1.push(("builtins"@, empty_array));
        proof {
            lemma_set_new_member(m1, "builtins"@, empty_array);
        }
        json_set(&mut data, "compiler_version", json_text("0.1"));
        let ghost m3 = m2.push(("compiler_version"@, JsonSpec::Text("0.1"@)));
        proof {
            lemma_set_new_member(m2, "compiler_version"@, JsonSpec::Text("0.1"@));
        }
        assert(json_view(data) == JsonSpec::Object(m3));
        let mut words = json_array();
        let hex = self.hex_data();
        let mut i: usize = 0;
        assert(hex_items(words_spec.subrange(0, 0)) =~= Seq::empty());
        while i < hex.len()
            invariant
                i <= hex@.len(),
                hex@.len() == words_spec.len(),
                words_spec == data_words(self.instructions@),
                forall|j: int| 0 <= j < hex@.len() ==> #[trigger] hex@[j]@ == hex_text(words_spec[j]),
                json_view(words) == JsonSpec::Array(hex_items(words_spec.subrange(0, i as int))),
            decreases hex@.len() - i,
        {
            json_push(&mut words, json_text(hex[i].as_str()));
            i = i + 1;
            assert(hex_items(words_spec.subrange(0, i as int)) =~= hex_items(
                words_spec.subrange(0, i - 1),
            ).push(JsonSpec::Text(hex_text(words_spec[i - 1]))));
        }
        assert(words_spec.subrange(0, i as int) =~= words_spec);
        let ghost words_view = json_view(words);
        json_set(&mut data, "data", words);
        let ghost m4 = m3.push(("data"@, words_view));
        proof {
            lemma_set_new_member(m3, "data"@, words_view);
        }
        json_set(&mut data, "hints", json_object());
        let ghost m5 = m4.push(("hints"@, JsonSpec::Object(Seq::empty())));
        proof {
            lemma_set_new_member(m4, "hints"@, JsonSpec::Object(Seq::empty()));
        }
        assert(json_view(data) == JsonSpec::Object(m5));
        let mut identifiers = json_object();
        let ids = self.identifiers();
        let mut j: usize = 0;
        assert(identifier_members(entries.subrange(0, 0)) =~= Seq::empty());
        while j < ids.len()
            invariant
                j <= ids@.len(),
                self.wf(),
                empty_array == JsonSpec::Array(Seq::empty()),
                entries == self.function_addresses.entries_spec(),
                ids@.len() == entries.len(),
                forall|k: int| 0 <= k < ids@.len() ==> {
                    &&& (#[trigger] ids@[k]).0@ == main_scope() + seq!['.'] + entries[k].0@
                    &&& ids@[k].1 == entries[k].1
                },
                json_view(identifiers) == JsonSpec::Object(
                    identifier_members(entries.subrange(0, j as int)),
                ),
            decreases ids@.len() - j,
        {
            proof {
                lemma_member_keys_distinct();
            }
            let mut entry = json_object();
            json_set(&mut entry, "decorators", json_array());
            proof {
                lemma_set_new_member(Seq::empty(), "decorators"@, empty_array);
            }
            let ghost e1 = Seq::<(Seq<char>, JsonSpec)>::empty().push(("decorators"@, empty_array));
            json_set(&mut entry, "pc", json_number(ids[j].1));
            let ghost pc = JsonSpec::Number { category: 1, mantissa: ids@[j as int].1, exponent: 0 };
            proof {
                lemma_set_new_member(e1, "pc"@, pc);
            }
            let ghost e2 = e1.push(("pc"@, pc));
            json_set(&mut entry, "type", json_text("function"));
            proof {
                lemma_set_new_member(e2, "type"@, JsonSpec::Text("function"@));
                assert(ids@[j as int].1 == entries[j as int].1);
                assert(e2.push(("type"@, JsonSpec::Text("function"@))) =~= identifier_entry(
                    entries[j as int].1,
                )->Object_0);
            }
            let ghost entry_view = json_view(entry);
            let ghost before = identifier_members(entries.subrange(0, j as int));
            proof {
                assert forall|k: int| 0 <= k < before.len() implies #[trigger] before[k].0 != ids@[j as int].0@ by {
                    self.function_addresses.lemma_distinct(k, j as int);
                    let prefix = main_scope() + seq!['.'];
                    if before[k].0 == ids@[j as int].0@ {
                        assert(before[k].0.subrange(prefix.len() as int, before[k].0.len() as int) =~= entries[k].0@);
                        assert(ids@[j as int].0@.subrange(prefix.len() as int, ids@[j as int].0@.len() as int) =~= entries[j as int].0@);
                    }
                }
                lemma_set_new_member(before, ids@[j as int].0@, entry_view);
            }
            json_set(&mut identifiers, ids[j].0.as_str(), entry);
            j = j + 1;
            assert(identifier_members(entries.subrange(0, j as int)) =~= before.push(
                (ids@[j - 1].0@, entry_view),
            ));
        }
        assert(entries.subrange(0, j as int) =~= entries);
        let ghost ids_view = json_view(identifiers);
        json_set(&mut data, "identifiers", identifiers);
        let ghost m6 = m5.push(("identifiers"@, ids_view));
        proof {
            lemma_set_new_member(m5, "identifiers"@, ids_view);
        }
        json_set(&mut data, "main_scope", json_text("__main__"));
        let ghost m7 = m6.push(("main_scope"@, JsonSpec::Text("__main__"@)));
        proof {
            lemma_set_new_member(m6, "main_scope"@, JsonSpec::Text("__main__"@));
        }
        json_set(&mut data, "prime", json_text(hex_word(PRIME).as_str()));
        let ghost m8 = m7.push(("prime"@, JsonSpec::Text(hex_text(PRIME))));
        proof {
            lemma_set_new_member(m7, "prime"@, JsonSpec::Text(hex_text(PRIME)));
        }
        let mut references = json_object();
        json_set(&mut references, "references", json_array());
        proof {
            lemma_set_new_member(Seq::empty(), "references"@, empty_array);
        }
        let ghost refs_view = json_view(references);
        json_set(&mut data, "reference_manager", references);
        proof {
            lemma_set_new_member(m8, "reference_manager"@, refs_view);
            reveal_strlit("__main__");
            assert("__main__"@ =~= main_scope());
            lemma_prime_text();
            assert(m8.push(("reference_manager"@, refs_view)) =~= artifact_spec(words_spec, entries)->Object_0);
        }
        json_dump(&data)
    }
}

} // verus!
