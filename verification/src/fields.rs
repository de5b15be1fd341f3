//! Flattening a structured value into an ordered list of named fields.

use vstd::prelude::*;

use crate::json::JsonValue;
use crate::json::json_of;
use crate::json::parse_json_raw;

verus! {

/// One substitution unit: a placeholder name in upper-case form, and the text
/// that replaces it.
#[derive(Debug)]
pub struct Field {
    name: String,
    value: String,
}

/// The mathematical content of a `Field`: its name and value as character
/// sequences.
#[verifier::ext_equal]
pub struct FieldView {
    pub name: Seq<char>,
    pub value: Seq<char>,
}

impl View for Field {
    type V = FieldView;

    closed spec fn view(&self) -> FieldView {
        FieldView { name: self.name@, value: self.value@ }
    }
}

impl Field {
    /// A field holding the given name and value verbatim.
    pub fn new(name: &str, value: &str) -> (r: Self)
        ensures
            r@.name == name@,
            r@.value == value@,
    {
        Self { name: name.to_owned(), value: value.to_owned() }
    }

    /// The placeholder name.
    pub fn name(&self) -> (r: &str)
        ensures
            r@ == self@.name,
    {
        self.name.as_str()
    }

    /// The substitution text.
    pub fn value(&self) -> (r: &str)
        ensures
            r@ == self@.value,
    {
        self.value.as_str()
    }
}

/// An ordered sequence of fields.
pub type Fields = Vec<Field>;

/// The views of a sequence of fields.
pub open spec fn fields_view(s: Seq<Field>) -> Seq<FieldView> {
    s.map_values(|f: Field| f@)
}

/// The fields as (name, value) pairs, in order: the shape the substitution
/// pass consumes.
pub open spec fn field_pairs(s: Seq<Field>) -> Seq<(Seq<char>, Seq<char>)> {
    s.map_values(|f: Field| (f@.name, f@.value))
}

/// ASCII upper-casing of one character; every other character is unchanged.
pub open spec fn upper_char(c: char) -> char {
    if 97 <= c as u32 && c as u32 <= 122 {
        (c as u32 - 32) as char
    } else {
        c
    }
}

/// ASCII upper-casing of a whole name.
pub open spec fn to_upper(s: Seq<char>) -> Seq<char> {
    s.map_values(|c: char| upper_char(c))
}

fn to_upper_char(c: char) -> (r: char)
    ensures
        r == upper_char(c),
{
    match c {
        'a' => 'A',
        'b' => 'B',
        'c' => 'C',
        'd' => 'D',
        'e' => 'E',
        'f' => 'F',
        'g' => 'G',
        'h' => 'H',
        'i' => 'I',
        'j' => 'J',
        'k' => 'K',
        'l' => 'L',
        'm' => 'M',
        'n' => 'N',
        'o' => 'O',
        'p' => 'P',
        'q' => 'Q',
        'r' => 'R',
        's' => 'S',
        't' => 'T',
        'u' => 'U',
        'v' => 'V',
        'w' => 'W',
        'x' => 'X',
        'y' => 'Y',
        'z' => 'Z',
        _ => c,
    }
}

/// Relies on `String::push` of std: it appends exactly the one character.
#[verifier::external_body]
fn push_char(s: &mut String, c: char)
    ensures
        final(s)@ == old(s)@.push(c),
{
    s.push(c);
}

/// The upper-cased copy of a name.
pub fn upper_string(s: &str) -> (r: String)
    ensures
        r@ == to_upper(s@),
{
    let n = s.unicode_len();
    let mut out = String::new();
    let mut i: usize = 0;
    while i < n
        invariant
            n == s@.len(),
            0 <= i <= n,
            out@.len() == i,
            forall|k: int| 0 <= k < i ==> out@[k] == upper_char(s@[k]),
        decreases n - i,
    {
        let c = to_upper_char(s.get_char(i));
        push_char(&mut out, c);
        i += 1;
    }
    proof {
        assert(out@ =~= to_upper(s@));
    }
    out
}

/// The decimal digit character for `d`.
pub open spec fn digit_char(d: int) -> char
    recommends
        0 <= d < 10,
{
    (48 + d) as char
}

/// The decimal text of a non-negative number, most significant digit first.
pub open spec fn nat_text(n: int) -> Seq<char>
    recommends
        n >= 0,
    decreases n,
{
    if n < 10 {
        seq![digit_char(n)]
    } else {
        nat_text(n / 10).push(digit_char(n % 10))
    }
}

fn digit_exec(d: usize) -> (r: char)
    requires
        d < 10,
    ensures
        r == digit_char(d as int),
{
    match d {
        0 => '0',
        1 => '1',
        2 => '2',
        3 => '3',
        4 => '4',
        5 => '5',
        6 => '6',
        7 => '7',
        8 => '8',
        _ => '9',
    }
}

/// Appends the decimal text of `n`.
fn push_decimal(out: &mut String, n: usize)
    ensures
        final(out)@ == old(out)@ + nat_text(n as int),
    decreases n,
{
    if n < 10 {
        let c = digit_exec(n);
        push_char(out, c);
        proof {
            assert(final(out)@ =~= old(out)@ + nat_text(n as int));
        }
    } else {
        push_decimal(out, n / 10);
        let c = digit_exec(n % 10);
        push_char(out, c);
        proof {
            assert(final(out)@ =~= old(out)@ + nat_text(n as int));
        }
    }
}

/// The substitution text of a scalar: a string passes through, a number keeps
/// its canonical decimal text, booleans and null render as their literals.
pub open spec fn scalar_text(v: JsonValue) -> Seq<char> {
    match v {
        JsonValue::Null => seq!['n', 'u', 'l', 'l'],
        JsonValue::Bool(b) => if b {
            seq!['t', 'r', 'u', 'e']
        } else {
            seq!['f', 'a', 'l', 's', 'e']
        },
        JsonValue::Num(s) => s@,
        JsonValue::Str(s) => s@,
        JsonValue::Arr(_) => Seq::empty(),
        JsonValue::Obj(_) => Seq::empty(),
    }
}

/// The fields of one named entry: a scalar yields one field whose name is the
/// whole joined name upper-cased; a container recurses with `_` appended to
/// the running name.
pub open spec fn entry_fields(name: Seq<char>, v: JsonValue) -> Seq<FieldView>
    decreases v,
{
    match v {
        JsonValue::Arr(items) => arr_fields(items@, 0, name + seq!['_']),
        JsonValue::Obj(pairs) => obj_fields(pairs@, name + seq!['_']),
        _ => seq![FieldView { name: to_upper(name), value: scalar_text(v) }],
    }
}

/// The fields of the items of an array, indices counting up from `idx`.
pub open spec fn arr_fields(items: Seq<JsonValue>, idx: int, prefix: Seq<char>) -> Seq<FieldView>
    decreases items,
{
    if items.len() == 0 {
        Seq::empty()
    } else {
        entry_fields(prefix + nat_text(idx), items[0])
            + arr_fields(items.drop_first(), idx + 1, prefix)
    }
}

/// The fields of the pairs of an object, keys in declaration order.
pub open spec fn obj_fields(pairs: Seq<(String, JsonValue)>, prefix: Seq<char>) -> Seq<FieldView>
    decreases pairs,
{
    if pairs.len() == 0 {
        Seq::empty()
    } else {
        entry_fields(prefix + pairs[0].0@, pairs[0].1) + obj_fields(pairs.drop_first(), prefix)
    }
}

/// The ordered fields a value flattens to.  A bare scalar has no enclosing
/// name and yields no field.
pub open spec fn json_fields(v: JsonValue, prefix: Seq<char>) -> Seq<FieldView> {
    match v {
        JsonValue::Arr(items) => arr_fields(items@, 0, prefix),
        JsonValue::Obj(pairs) => obj_fields(pairs@, prefix),
        _ => Seq::empty(),
    }
}

proof fn lemma_arr_unfold(items: Seq<JsonValue>, i: int, prefix: Seq<char>)
    requires
        0 <= i < items.len(),
    ensures
        arr_fields(items.skip(i), i, prefix) == entry_fields(prefix + nat_text(i), items[i])
            + arr_fields(items.skip(i + 1), i + 1, prefix),
{
    assert(items.skip(i)[0] == items[i]);
    assert(items.skip(i).drop_first() =~= items.skip(i + 1));
}

proof fn lemma_obj_unfold(pairs: Seq<(String, JsonValue)>, i: int, prefix: Seq<char>)
    requires
        0 <= i < pairs.len(),
    ensures
        obj_fields(pairs.skip(i), prefix) == entry_fields(prefix + pairs[i].0@, pairs[i].1)
            + obj_fields(pairs.skip(i + 1), prefix),
{
    assert(pairs.skip(i)[0] == pairs[i]);
    assert(pairs.skip(i).drop_first() =~= pairs.skip(i + 1));
}

fn scalar_string(v: &JsonValue) -> (r: String)
    requires
        v.is_scalar(),
    ensures
        r@ == scalar_text(*v),
{
    match v {
        JsonValue::Null => {
            proof {
                reveal_strlit("null");
            }
            let s = String::from_str("null");
            proof {
                assert(s@ =~= seq!['n', 'u', 'l', 'l']);
            }
            s
        },
        JsonValue::Bool(b) => {
            proof {
                reveal_strlit("true");
                reveal_strlit("false");
            }
            let s = if *b {
                String::from_str("true")
            } else {
                String::from_str("false")
            };
            proof {
                if *b {
                    assert(s@ =~= seq!['t', 'r', 'u', 'e']);
                } else {
                    assert(s@ =~= seq!['f', 'a', 'l', 's', 'e']);
                }
            }
            s
        },
        JsonValue::Num(s) => s.clone(),
        JsonValue::Str(s) => s.clone(),
        JsonValue::Arr(_) => {
            proof {
                assert(false);
            }
            String::new()
        },
        JsonValue::Obj(_) => {
            proof {
                assert(false);
            }
            String::new()
        },
    }
}

/// Flattens one named entry into `ret`.
fn entry_into(ret: &mut Vec<Field>, name: &str, v: &JsonValue)
    ensures
        fields_view(final(ret)@) == fields_view(old(ret)@) + entry_fields(name@, *v),
    decreases *v,
{
    match v {
        JsonValue::Arr(items) => {
            let mut nm = name.to_owned();
            push_char(&mut nm, '_');
            proof {
                assert(nm@ =~= name@ + seq!['_']);
            }
            arr_into(ret, items, nm.as_str());
        },
        JsonValue::Obj(pairs) => {
            let mut nm = name.to_owned();
            push_char(&mut nm, '_');
            proof {
                assert(nm@ =~= name@ + seq!['_']);
            }
            obj_into(ret, pairs, nm.as_str());
        },
        _ => {
            let upper = upper_string(name);
            let value = scalar_string(v);
            let f = Field { name: upper, value };
            ret.push(f);
            proof {
                assert(fields_view(final(ret)@) =~= fields_view(old(ret)@) + entry_fields(
                    name@,
                    *v,
                ));
            }
        },
    }
}

/// Flattens the items of an array into `ret`, indices counting up from zero.
fn arr_into(ret: &mut Vec<Field>, items: &Vec<JsonValue>, prefix: &str)
    ensures
        fields_view(final(ret)@) == fields_view(old(ret)@) + arr_fields(items@, 0, prefix@),
    decreases items@,
{
    let n = items.len();
    let mut i: usize = 0;
    let ghost ret0 = ret@;
    proof {
        assert(items@.skip(0) =~= items@);
    }
    while i < n
        invariant
            n == items@.len(),
            0 <= i <= n,
            fields_view(ret@) + arr_fields(items@.skip(i as int), i as int, prefix@)
                == fields_view(ret0) + arr_fields(items@, 0, prefix@),
        decreases n - i,
    {
        let mut nm = prefix.to_owned();
        push_decimal(&mut nm, i);
        entry_into(ret, nm.as_str(), &items[i]);
        proof {
            lemma_arr_unfold(items@, i as int, prefix@);
            assert(fields_view(ret@) + arr_fields(items@.skip(i + 1), i + 1, prefix@)
                =~= fields_view(ret0) + arr_fields(items@, 0, prefix@));
        }
        i += 1;
    }
    proof {
        assert(items@.skip(n as int) =~= Seq::<JsonValue>::empty());
        assert(fields_view(ret@) + Seq::<FieldView>::empty() =~= fields_view(ret@));
    }
}

/// Flattens the pairs of an object into `ret`, keys in declaration order.
fn obj_into(ret: &mut Vec<Field>, pairs: &Vec<(String, JsonValue)>, prefix: &str)
    ensures
        fields_view(final(ret)@) == fields_view(old(ret)@) + obj_fields(pairs@, prefix@),
    decreases pairs@,
{
    let n = pairs.len();
    let mut i: usize = 0;
    let ghost ret0 = ret@;
    proof {
        assert(pairs@.skip(0) =~= pairs@);
    }
    while i < n
        invariant
            n == pairs@.len(),
            0 <= i <= n,
            fields_view(ret@) + obj_fields(pairs@.skip(i as int), prefix@)
                == fields_view(ret0) + obj_fields(pairs@, prefix@),
        decreases n - i,
    {
        let mut nm = prefix.to_owned();
        nm.append(pairs[i].0.as_str());
        entry_into(ret, nm.as_str(), &pairs[i].1);
        proof {
            lemma_obj_unfold(pairs@, i as int, prefix@);
            assert(fields_view(ret@) + obj_fields(pairs@.skip(i + 1), prefix@)
                =~= fields_view(ret0) + obj_fields(pairs@, prefix@));
        }
        i += 1;
    }
    proof {
        assert(pairs@.skip(n as int) =~= Seq::<(String, JsonValue)>::empty());
        assert(fields_view(ret@) + Seq::<FieldView>::empty() =~= fields_view(ret@));
    }
}

/// Flattens a value into its ordered field list, each name carrying the
/// given running prefix.
pub fn generate_fields(field: &JsonValue, prefix: &str) -> (r: Vec<Field>)
    ensures
        fields_view(r@) == json_fields(*field, prefix@),
{
    let mut ret: Vec<Field> = Vec::new();
    proof {
        assert(fields_view(ret@) =~= Seq::<FieldView>::empty());
    }
    match field {
        JsonValue::Arr(items) => {
            arr_into(&mut ret, items, prefix);
            proof {
                assert(Seq::<FieldView>::empty() + arr_fields(items@, 0, prefix@) =~= arr_fields(
                    items@,
                    0,
                    prefix@,
                ));
            }
        },
        JsonValue::Obj(pairs) => {
            obj_into(&mut ret, pairs, prefix);
            proof {
                assert(Seq::<FieldView>::empty() + obj_fields(pairs@, prefix@) =~= obj_fields(
                    pairs@,
                    prefix@,
                ));
            }
        },
        _ => {},
    }
    ret
}

/// The field list of a JSON text: the text is parsed, then flattened from an
/// empty name prefix.  A malformed text is rejected with the parser's
/// message.
pub fn fields_from_str(content: &str) -> (r: Result<Fields, String>)
    ensures
        r matches Ok(fields) ==> json_of(content@) matches Some(v) && fields_view(fields@)
            == json_fields(v, Seq::<char>::empty()),
        r is Err <==> json_of(content@) is None,
{
    match parse_json_raw(content) {
        Ok(v) => {
            let f = generate_fields(&v, "");
            proof {
                reveal_strlit("");
                assert(""@ =~= Seq::<char>::empty());
            }
            Ok(f)
        },
        Err(e) => Err(e),
    }
}

/// Law: a flat object — every value a scalar — flattens to exactly one field
/// per pair, in declaration order, the name being the upper-cased prefixed
/// key and the value the scalar's canonical text.
pub proof fn lemma_flat_object(pairs: Seq<(String, JsonValue)>, prefix: Seq<char>)
    requires
        forall|i: int| 0 <= i < pairs.len() ==> #[trigger] pairs[i].1.is_scalar(),
    ensures
        obj_fields(pairs, prefix).len() == pairs.len(),
        forall|i: int|
            0 <= i < pairs.len() ==> obj_fields(pairs, prefix)[i] == (FieldView {
                name: to_upper(prefix + pairs[i].0@),
                value: scalar_text(pairs[i].1),
            }),
    decreases pairs.len(),
{
    if pairs.len() == 0 {
    } else {
        assert(pairs[0].1.is_scalar());
        assert(entry_fields(prefix + pairs[0].0@, pairs[0].1) == seq![
            FieldView { name: to_upper(prefix + pairs[0].0@), value: scalar_text(pairs[0].1) },
        ]);
        assert(forall|i: int|
            0 <= i < pairs.drop_first().len() ==> pairs.drop_first()[i] == pairs[i + 1]);
        lemma_flat_object(pairs.drop_first(), prefix);
    }
}

/// Upper-casing a joined name equals joining the upper-cased parts: casing
/// the whole name after concatenation changes nothing against casing the
/// parts.
pub proof fn lemma_upper_concat(a: Seq<char>, b: Seq<char>)
    ensures
        to_upper(a + b) == to_upper(a) + to_upper(b),
{
    assert(to_upper(a + b) =~= to_upper(a) + to_upper(b));
}

/// Law: flattening is a pure function of the input: two field lists built
/// from the same value under the same prefix are the same ordered sequence.
pub proof fn lemma_flatten_deterministic(a: Seq<Field>, b: Seq<Field>, v: JsonValue, prefix: Seq<char>)
    requires
        fields_view(a) == json_fields(v, prefix),
        fields_view(b) == json_fields(v, prefix),
    ensures
        fields_view(a) == fields_view(b),
{
}

proof fn lemma_entry_prefix(name: Seq<char>, p: Seq<char>, v: JsonValue)
    ensures
        entry_fields(p + name, v).len() == entry_fields(name, v).len(),
        forall|i: int|
            0 <= i < entry_fields(name, v).len() ==> #[trigger] entry_fields(p + name, v)[i]
                == (FieldView {
                name: to_upper(p) + entry_fields(name, v)[i].name,
                value: entry_fields(name, v)[i].value,
            }),
    decreases v,
{
    match v {
        JsonValue::Arr(items) => {
            assert((p + name) + seq!['_'] =~= p + (name + seq!['_']));
            lemma_arr_prefix(items@, 0, name + seq!['_'], p);
        },
        JsonValue::Obj(pairs) => {
            assert((p + name) + seq!['_'] =~= p + (name + seq!['_']));
            lemma_obj_prefix(pairs@, name + seq!['_'], p);
        },
        _ => {
            lemma_upper_concat(p, name);
        },
    }
}

proof fn lemma_arr_prefix(items: Seq<JsonValue>, idx: int, prefix: Seq<char>, p: Seq<char>)
    ensures
        arr_fields(items, idx, p + prefix).len() == arr_fields(items, idx, prefix).len(),
        forall|i: int|
            0 <= i < arr_fields(items, idx, prefix).len() ==> #[trigger] arr_fields(
                items,
                idx,
                p + prefix,
            )[i] == (FieldView {
                name: to_upper(p) + arr_fields(items, idx, prefix)[i].name,
                value: arr_fields(items, idx, prefix)[i].value,
            }),
    decreases items,
{
    if items.len() == 0 {
    } else {
        assert((p + prefix) + nat_text(idx) =~= p + (prefix + nat_text(idx)));
        lemma_entry_prefix(prefix + nat_text(idx), p, items[0]);
        lemma_arr_prefix(items.drop_first(), idx + 1, prefix, p);
        let head = entry_fields(prefix + nat_text(idx), items[0]);
        let tail = arr_fields(items.drop_first(), idx + 1, prefix);
        assert forall|i: int|
            0 <= i < arr_fields(items, idx, prefix).len() implies #[trigger] arr_fields(
            items,
            idx,
            p + prefix,
        )[i] == (FieldView {
            name: to_upper(p) + arr_fields(items, idx, prefix)[i].name,
            value: arr_fields(items, idx, prefix)[i].value,
        }) by {
            if i < head.len() {
                assert(arr_fields(items, idx, prefix)[i] == head[i]);
            } else {
                assert(arr_fields(items, idx, prefix)[i] == tail[i - head.len()]);
            }
        }
    }
}

proof fn lemma_obj_prefix(pairs: Seq<(String, JsonValue)>, prefix: Seq<char>, p: Seq<char>)
    ensures
        obj_fields(pairs, p + prefix).len() == obj_fields(pairs, prefix).len(),
        forall|i: int|
            0 <= i < obj_fields(pairs, prefix).len() ==> #[trigger] obj_fields(pairs, p + prefix)[i]
                == (FieldView {
                name: to_upper(p) + obj_fields(pairs, prefix)[i].name,
                value: obj_fields(pairs, prefix)[i].value,
            }),
    decreases pairs,
{
    if pairs.len() == 0 {
    } else {
        assert((p + prefix) + pairs[0].0@ =~= p + (prefix + pairs[0].0@));
        lemma_entry_prefix(prefix + pairs[0].0@, p, pairs[0].1);
        lemma_obj_prefix(pairs.drop_first(), prefix, p);
        let head = entry_fields(prefix + pairs[0].0@, pairs[0].1);
        let tail = obj_fields(pairs.drop_first(), prefix);
        assert forall|i: int|
            0 <= i < obj_fields(pairs, prefix).len() implies #[trigger] obj_fields(
            pairs,
            p + prefix,
        )[i] == (FieldView {
            name: to_upper(p) + obj_fields(pairs, prefix)[i].name,
            value: obj_fields(pairs, prefix)[i].value,
        }) by {
            if i < head.len() {
                assert(obj_fields(pairs, prefix)[i] == head[i]);
            } else {
                assert(obj_fields(pairs, prefix)[i] == tail[i - head.len()]);
            }
        }
    }
}

/// Law: names concatenate parent to child.  Flattening under a longer
/// running prefix `p + prefix` yields the same fields as under `prefix`,
/// each name carrying the extra upper-cased part `p` in front: so a nested
/// leaf's name is the whole joined key path, upper-cased.
pub proof fn lemma_nested_prefix(v: JsonValue, p: Seq<char>, prefix: Seq<char>)
    ensures
        json_fields(v, p + prefix).len() == json_fields(v, prefix).len(),
        forall|i: int|
            0 <= i < json_fields(v, prefix).len() ==> #[trigger] json_fields(v, p + prefix)[i]
                == (FieldView {
                name: to_upper(p) + json_fields(v, prefix)[i].name,
                value: json_fields(v, prefix)[i].value,
            }),
{
    match v {
        JsonValue::Arr(items) => {
            lemma_arr_prefix(items@, 0, prefix, p);
        },
        JsonValue::Obj(pairs) => {
            lemma_obj_prefix(pairs@, prefix, p);
        },
        _ => {
        },
    }
}

} // verus!
