use vstd::prelude::*;
use vstd::string::{StrSliceExecFns, StringExecFns};

verus! {

/// The mathematical model of a JSON value: strings are character sequences,
/// integers are unbounded, and non-integral numbers are kept as their text.
pub enum Json {
    Null,
    Bool(bool),
    Int(int),
    Number(Seq<char>),
    Str(Seq<char>),
    Array(Seq<Json>),
    Object(Seq<(Seq<char>, Json)>),
}

/// A structured value as exchanged with external calls and persisted on disk.
/// Object members keep the order in which they were written.
#[derive(Debug, PartialEq)]
pub enum JsonValue {
    Null,
    Bool(bool),
    Int(i64),
    Number(String),
    Str(String),
    Array(Vec<JsonValue>),
    Object(Vec<(String, JsonValue)>),
}

pub open spec fn json_of(v: JsonValue) -> Json
    decreases v,
{
    match v {
        JsonValue::Null => Json::Null,
        JsonValue::Bool(b) => Json::Bool(b),
        JsonValue::Int(i) => Json::Int(i as int),
        JsonValue::Number(n) => Json::Number(n@),
        JsonValue::Str(s) => Json::Str(s@),
        JsonValue::Array(items) => Json::Array(items_of(items@)),
        JsonValue::Object(members) => Json::Object(members_of(members@)),
    }
}

pub open spec fn items_of(s: Seq<JsonValue>) -> Seq<Json>
    decreases s,
{
    if s.len() == 0 {
        Seq::empty()
    } else {
        items_of(s.drop_last()).push(json_of(s.last()))
    }
}

pub open spec fn members_of(s: Seq<(String, JsonValue)>) -> Seq<(Seq<char>, Json)>
    decreases s,
{
    if s.len() == 0 {
        Seq::empty()
    } else {
        members_of(s.drop_last()).push((s.last().0@, json_of(s.last().1)))
    }
}

impl View for JsonValue {
    type V = Json;

    open spec fn view(&self) -> Json {
        json_of(*self)
    }
}


pub open spec fn hex_digit(n: int) -> char
    recommends
        0 <= n < 16,
{
    seq!['0', '1', '2', '3', '4', '5', '6', '7', '8', '9', 'a', 'b', 'c', 'd', 'e', 'f'][n]
}

/// How one character is written inside a JSON string literal.
pub open spec fn escape_char(c: char) -> Seq<char> {
    if c == '"' {
        seq!['\\', '"']
    } else if c == '\\' {
        seq!['\\', '\\']
    } else if c == '\x08' {
        seq!['\\', 'b']
    } else if c == '\t' {
        seq!['\\', 't']
    } else if c == '\n' {
        seq!['\\', 'n']
    } else if c == '\x0c' {
        seq!['\\', 'f']
    } else if c == '\r' {
        seq!['\\', 'r']
    } else if (c as u32) < 0x20 {
        seq!['\\', 'u', '0', '0', hex_digit(((c as u32) / 16) as int), hex_digit(((c as u32) % 16) as int)]
    } else {
        seq![c]
    }
}

pub open spec fn escaped(s: Seq<char>) -> Seq<char>
    decreases s.len(),
{
    if s.len() == 0 {
        Seq::empty()
    } else {
        escaped(s.drop_last()) + escape_char(s.last())
    }
}

/// A JSON string literal holding exactly the characters of `s`.
pub open spec fn quoted(s: Seq<char>) -> Seq<char> {
    seq!['"'] + escaped(s) + seq!['"']
}

pub open spec fn decimal_digit(n: nat) -> char {
    seq!['0', '1', '2', '3', '4', '5', '6', '7', '8', '9'][n as int]
}

/// Decimal notation of a natural number, without leading zeros.
pub open spec fn decimal(n: nat) -> Seq<char>
    decreases n,
{
    if n < 10 {
        seq![decimal_digit(n)]
    } else {
        decimal(n / 10).push(decimal_digit(n % 10))
    }
}

pub open spec fn int_text(i: int) -> Seq<char> {
    if i < 0 {
        seq!['-'] + decimal((-i) as nat)
    } else {
        decimal(i as nat)
    }
}

/// The canonical text of a value: no whitespace, object members in key order with each
/// key once (its last value).
pub open spec fn encode(j: Json) -> Seq<char>
    decreases j,
{
    match j {
        Json::Null => "null"@,
        Json::Bool(b) => if b {
            "true"@
        } else {
            "false"@
        },
        Json::Int(i) => int_text(i),
        Json::Number(n) => n,
        Json::Str(s) => quoted(s),
        Json::Array(items) => seq!['['] + encode_items(items) + seq![']'],
        Json::Object(members) => seq!['{'] + join_pairs(normalized(encoded_members(members))) + seq!['}'],
    }
}

/// Whether `a` comes before `b`, comparing characters by code point (the order of the
/// UTF-8 bytes).
pub open spec fn key_lt(a: Seq<char>, b: Seq<char>) -> bool
    decreases a.len(),
{
    if a.len() == 0 {
        b.len() > 0
    } else if b.len() == 0 {
        false
    } else if a[0] != b[0] {
        (a[0] as int) < (b[0] as int)
    } else {
        key_lt(a.drop_first(), b.drop_first())
    }
}

/// Adds `m` to members kept in key order; a member with the same key is replaced.
pub open spec fn insert_member(s: Seq<(Seq<char>, Seq<char>)>, m: (Seq<char>, Seq<char>)) -> Seq<(Seq<char>, Seq<char>)>
    decreases s.len(),
{
    if s.len() == 0 {
        seq![m]
    } else if s[0].0 == m.0 {
        seq![m] + s.drop_first()
    } else if key_lt(m.0, s[0].0) {
        seq![m] + s
    } else {
        seq![s[0]] + insert_member(s.drop_first(), m)
    }
}

/// The members of an object in key order, each key once with its last value: two objects
/// with the same members, written in any order, are normalized alike.
pub open spec fn normalized(members: Seq<(Seq<char>, Seq<char>)>) -> Seq<(Seq<char>, Seq<char>)>
    decreases members.len(),
{
    if members.len() == 0 {
        Seq::empty()
    } else {
        insert_member(normalized(members.drop_last()), members.last())
    }
}

pub open spec fn encode_items(s: Seq<Json>) -> Seq<char>
    decreases s,
{
    if s.len() == 0 {
        Seq::empty()
    } else if s.len() == 1 {
        encode(s[0])
    } else {
        encode_items(s.drop_last()) + seq![','] + encode(s.last())
    }
}

/// Each member's key with the canonical text of its value.
pub open spec fn encoded_members(s: Seq<(Seq<char>, Json)>) -> Seq<(Seq<char>, Seq<char>)>
    decreases s,
{
    if s.len() == 0 {
        Seq::empty()
    } else {
        encoded_members(s.drop_last()).push((s.last().0, encode(s.last().1)))
    }
}

/// `"key":value` for each pair, separated by commas.
pub open spec fn join_pairs(s: Seq<(Seq<char>, Seq<char>)>) -> Seq<char>
    decreases s.len(),
{
    if s.len() == 0 {
        Seq::empty()
    } else if s.len() == 1 {
        quoted(s[0].0) + seq![':'] + s[0].1
    } else {
        join_pairs(s.drop_last()) + seq![','] + quoted(s.last().0) + seq![':'] + s.last().1
    }
}

/// Relies on serde_json::to_string for a `str`: a quoted JSON string literal,
/// escaping `"`, `\` and the control characters below U+0020 as its escape table does.
#[verifier::external_body]
fn json_quote(s: &str) -> (r: String)
    ensures
        r@ == quoted(s@),
{
    match serde_json::to_string(s) {
        Ok(text) => text,
        Err(_) => String::new(),
    }
}

fn digit_text(d: u64) -> (r: &'static str)
    requires
        d < 10,
    ensures
        r@ == seq![decimal_digit(d as nat)],
{
    proof {
        reveal_strlit("0");
        reveal_strlit("1");
        reveal_strlit("2");
        reveal_strlit("3");
        reveal_strlit("4");
        reveal_strlit("5");
        reveal_strlit("6");
        reveal_strlit("7");
        reveal_strlit("8");
        reveal_strlit("9");
    }
    if d == 0 {
        "0"
    } else if d == 1 {
        "1"
    } else if d == 2 {
        "2"
    } else if d == 3 {
        "3"
    } else if d == 4 {
        "4"
    } else if d == 5 {
        "5"
    } else if d == 6 {
        "6"
    } else if d == 7 {
        "7"
    } else if d == 8 {
        "8"
    } else {
        "9"
    }
}

/// Appends the decimal notation of `n`.
pub fn write_decimal(n: u64, out: &mut String)
    ensures
        final(out)@ == old(out)@ + decimal(n as nat),
    decreases n,
{
    if n >= 10 {
        write_decimal(n / 10, out);
    }
    out.append(digit_text(n % 10));
    assert(out@ =~= old(out)@ + decimal(n as nat));
}


/// Appends the decimal notation of `i`, with a leading `-` when negative.
pub fn write_int(i: i64, out: &mut String)
    ensures
        final(out)@ == old(out)@ + int_text(i as int),
{
    if i < 0 {
        out.append("-");
        let m: u64 = (0i128 - (i as i128)) as u64;
        write_decimal(m, out);
        proof {
            reveal_strlit("-");
        }
        assert(out@ =~= old(out)@ + int_text(i as int));
    } else {
        write_decimal(i as u64, out);
    }
}

proof fn lemma_items_step(s: Seq<JsonValue>, i: int)
    requires
        0 <= i < s.len(),
    ensures
        items_of(s.take(i + 1)) == items_of(s.take(i)).push(json_of(s[i])),
{
    assert(s.take(i + 1).drop_last() =~= s.take(i));
}

proof fn lemma_members_step(s: Seq<(String, JsonValue)>, i: int)
    requires
        0 <= i < s.len(),
    ensures
        members_of(s.take(i + 1)) == members_of(s.take(i)).push((s[i].0@, json_of(s[i].1))),
{
    assert(s.take(i + 1).drop_last() =~= s.take(i));
}

pub proof fn lemma_items_len(s: Seq<JsonValue>)
    ensures
        items_of(s).len() == s.len(),
    decreases s.len(),
{
    if s.len() > 0 {
        lemma_items_len(s.drop_last());
    }
}

pub proof fn lemma_members_len(s: Seq<(String, JsonValue)>)
    ensures
        members_of(s).len() == s.len(),
    decreases s.len(),
{
    if s.len() > 0 {
        lemma_members_len(s.drop_last());
    }
}

/// Appends the canonical text of `v`.
pub fn write_canonical(v: &JsonValue, out: &mut String)
    ensures
        final(out)@ == old(out)@ + encode(v@),
    decreases v,
{
    match v {
        JsonValue::Null => {
            out.append("null");
        },
        JsonValue::Bool(b) => {
            if *b {
                out.append("true");
            } else {
                out.append("false");
            }
        },
        JsonValue::Int(i) => {
            write_int(*i, out);
        },
        JsonValue::Number(n) => {
            out.append(n.as_str());
        },
        JsonValue::Str(s) => {
            let q = json_quote(s.as_str());
            out.append(q.as_str());
        },
        JsonValue::Array(items) => {
            let ghost start = out@;
            out.append("[");
            proof {
                reveal_strlit("[");
                assert(items@.take(0) =~= Seq::<JsonValue>::empty());
            }
            let mut i: usize = 0;
            while i < items.len()
                invariant
                    0 <= i <= items.len(),
                    *v == JsonValue::Array(*items),
                    out@ == start + seq!['['] + encode_items(items_of(items@.take(i as int))),
                decreases items.len() - i,
            {
                proof {
                    lemma_items_step(items@, i as int);
                    lemma_items_len(items@.take(i as int));
                }
                if i > 0 {
                    out.append(",");
                    proof {
                        reveal_strlit(",");
                    }
                }
                proof {
                    vstd::std_specs::vec::axiom_vec_index_decreases(*items, i as int);
                    assert(*v == JsonValue::Array(*items));
                    assert(decreases_to!(*v => (*v)->Array_0));
                    assert(decreases_to!(*items => items[i as int]));
                }
                write_canonical(&items[i], out);
                i = i + 1;
                proof {
                    let prev = items_of(items@.take(i - 1));
                    let next = items_of(items@.take(i as int));
                    assert(next.drop_last() =~= prev);
                    assert(out@ =~= start + seq!['['] + encode_items(next));
                }
            }
            out.append("]");
            proof {
                reveal_strlit("]");
                assert(items@.take(items.len() as int) =~= items@);
                assert(out@ =~= old(out)@ + encode(v@));
            }
        },
        JsonValue::Object(members) => {
            let ghost ms = members_of(members@);
            let ghost pairs = encoded_members(ms);
            proof {
                lemma_members_len(members@);
                lemma_encoded_len(ms);
            }
            let mut texts: Vec<String> = Vec::new();
            let mut i: usize = 0;
            while i < members.len()
                invariant
                    i <= members.len(),
                    *v == JsonValue::Object(*members),
                    ms == members_of(members@),
                    texts@.len() == i,
                    forall|k: int| 0 <= k < i ==> (#[trigger] texts@[k])@ == encode(json_of(members@[k].1)),
                decreases members.len() - i,
            {
                proof {
                    vstd::std_specs::vec::axiom_vec_index_decreases(*members, i as int);
                    assert(decreases_to!(*v => (*v)->Object_0));
                    assert(decreases_to!(*members => members[i as int]));
                    assert(decreases_to!(members[i as int] => members[i as int].1));
                }
                let mut text = String::new();
                write_canonical(&members[i].1, &mut text);
                assert(text@ =~= encode(json_of(members@[i as int].1)));
                texts.push(text);
                i = i + 1;
            }
            proof {
                assert forall|k: int| 0 <= k < members.len() implies (#[trigger] pairs[k]) == (
                    members@[k].0@,
                    texts@[k]@,
                ) by {
                    lemma_pair_index(members@, k);
                }
            }
            let mut order: Vec<usize> = Vec::new();
            i = 0;
            proof {
                assert(pairs.take(0) =~= Seq::<(Seq<char>, Seq<char>)>::empty());
                assert(order@.map_values(|k: usize| pairs[k as int]) =~= Seq::<(Seq<char>, Seq<char>)>::empty());
            }
            while i < members.len()
                invariant
                    i <= members.len(),
                    ms == members_of(members@),
                    pairs == encoded_members(ms),
                    pairs.len() == members.len(),
                    texts@.len() == members.len(),
                    forall|q: int| 0 <= q < members.len() ==> (#[trigger] pairs[q]) == (members@[q].0@, texts@[q]@),
                    forall|k: int| 0 <= k < order@.len() ==> (#[trigger] order@[k]) < i,
                    order@.map_values(|k: usize| pairs[k as int]) == normalized(pairs.take(i as int)),
                decreases members.len() - i,
            {
                let ghost sorted = order@.map_values(|k: usize| pairs[k as int]);
                let ghost m = pairs[i as int];
                proof {
                    lemma_pair_index(members@, i as int);
                    assert(pairs.take(i + 1).drop_last() =~= pairs.take(i as int));
                    assert(normalized(pairs.take(i + 1)) == insert_member(sorted, m));
                    assert(sorted.skip(0) =~= sorted);
                    assert(sorted.take(0) =~= Seq::<(Seq<char>, Seq<char>)>::empty());
                }
                let mut j: usize = 0;
                while j < order.len() && !(members[order[j]].0 == members[i].0) && !key_less(
                    members[i].0.as_str(),
                    members[order[j]].0.as_str(),
                )
                    invariant
                        j <= order.len(),
                        i < members.len(),
                        pairs.len() == members.len(),
                        forall|k: int| 0 <= k < order@.len() ==> (#[trigger] order@[k]) < i,
                        sorted == order@.map_values(|k: usize| pairs[k as int]),
                        m == pairs[i as int],
                        m.0 == members@[i as int].0@,
                        forall|k: int| 0 <= k < members.len() ==> (#[trigger] pairs[k]).0 == members@[k].0@,
                        insert_member(sorted, m) == sorted.take(j as int) + insert_member(sorted.skip(j as int), m),
                    decreases order.len() - j,
                {
                    proof {
                        let rest = sorted.skip(j as int);
                        assert(rest[0] == pairs[order@[j as int] as int]);
                        assert(rest.drop_first() =~= sorted.skip(j + 1));
                        assert(sorted.take(j + 1) =~= sorted.take(j as int).push(rest[0]));
                        assert(insert_member(rest, m) == seq![rest[0]] + insert_member(rest.drop_first(), m));
                        assert(sorted.take(j as int) + (seq![rest[0]] + insert_member(sorted.skip(j + 1), m))
                            =~= sorted.take(j + 1) + insert_member(sorted.skip(j + 1), m));
                    }
                    j = j + 1;
                }
                let ghost old_order = order@;
                if j < order.len() && members[order[j]].0 == members[i].0 {
                    order.remove(j);
                    order.insert(j, i);
                    proof {
                        let rest = sorted.skip(j as int);
                        assert(rest[0] == pairs[old_order[j as int] as int]);
                        assert(rest.drop_first() =~= sorted.skip(j + 1));
                        assert(order@ =~= old_order.update(j as int, i));
                        assert(order@.map_values(|k: usize| pairs[k as int]) =~= sorted.take(j as int)
                            + (seq![m] + sorted.skip(j + 1)));
                    }
                } else {
                    order.insert(j, i);
                    proof {
                        if j < old_order.len() {
                            let rest = sorted.skip(j as int);
                            assert(rest[0] == pairs[old_order[j as int] as int]);
                            assert(key_lt(m.0, rest[0].0));
                            assert(insert_member(rest, m) == seq![m] + rest);
                        } else {
                            assert(sorted.skip(j as int) =~= Seq::<(Seq<char>, Seq<char>)>::empty());
                        }
                        assert(order@ =~= old_order.insert(j as int, i));
                        assert(order@.map_values(|k: usize| pairs[k as int]) =~= sorted.take(j as int)
                            + (seq![m] + sorted.skip(j as int)));
                    }
                }
                i = i + 1;
            }
            proof {
                assert(pairs.take(members.len() as int) =~= pairs);
            }
            let ghost model = order@.map_values(|k: usize| pairs[k as int]);
            let ghost start = out@;
            out.append("{");
            proof {
                reveal_strlit("{");
                assert(model.take(0) =~= Seq::<(Seq<char>, Seq<char>)>::empty());
            }
            let mut k: usize = 0;
            while k < order.len()
                invariant
                    k <= order.len(),
                    model == order@.map_values(|x: usize| pairs[x as int]),
                    pairs.len() == members.len(),
                    texts@.len() == members.len(),
                    forall|q: int| 0 <= q < order@.len() ==> (#[trigger] order@[q]) < members.len(),
                    forall|q: int| 0 <= q < members.len() ==> (#[trigger] pairs[q]) == (members@[q].0@, texts@[q]@),
                    out@ == start + seq!['{'] + join_pairs(model.take(k as int)),
                decreases order.len() - k,
            {
                let idx = order[k];
                if k > 0 {
                    out.append(",");
                    proof {
                        reveal_strlit(",");
                    }
                }
                let q = json_quote(members[idx].0.as_str());
                out.append(q.as_str());
                out.append(":");
                out.append(texts[idx].as_str());
                proof {
                    reveal_strlit(":");
                    assert(model[k as int] == pairs[idx as int]);
                    let next = model.take(k + 1);
                    assert(next.drop_last() =~= model.take(k as int));
                    assert(out@ =~= start + seq!['{'] + join_pairs(next));
                }
                k = k + 1;
            }
            out.append("}");
            proof {
                reveal_strlit("}");
                assert(model.take(order.len() as int) =~= model);
                assert(out@ =~= old(out)@ + encode(v@));
            }
        },
    }
}

pub proof fn lemma_encoded_len(s: Seq<(Seq<char>, Json)>)
    ensures
        encoded_members(s).len() == s.len(),
    decreases s.len(),
{
    if s.len() > 0 {
        lemma_encoded_len(s.drop_last());
    }
}

proof fn lemma_encoded_index(s: Seq<(Seq<char>, Json)>, i: int)
    requires
        0 <= i < s.len(),
    ensures
        encoded_members(s)[i] == (s[i].0, encode(s[i].1)),
    decreases s.len(),
{
    lemma_encoded_len(s);
    if i < s.len() - 1 {
        lemma_encoded_index(s.drop_last(), i);
    }
}

/// The key and canonical value text of member `i`.
proof fn lemma_pair_index(members: Seq<(String, JsonValue)>, i: int)
    requires
        0 <= i < members.len(),
    ensures
        encoded_members(members_of(members))[i] == (members[i].0@, encode(json_of(members[i].1))),
{
    lemma_members_index(members, i);
    lemma_encoded_index(members_of(members), i);
}

/// Whether `a` comes before `b` in key order.
fn key_less(a: &str, b: &str) -> (r: bool)
    ensures
        r == key_lt(a@, b@),
{
    let la = a.unicode_len();
    let lb = b.unicode_len();
    let mut i: usize = 0;
    proof {
        assert(a@.skip(0) =~= a@);
        assert(b@.skip(0) =~= b@);
    }
    while i < la && i < lb && a.get_char(i) == b.get_char(i)
        invariant
            i <= la,
            i <= lb,
            la == a@.len(),
            lb == b@.len(),
            key_lt(a@, b@) == key_lt(a@.skip(i as int), b@.skip(i as int)),
        decreases la - i,
    {
        proof {
            assert(a@.skip(i as int).drop_first() =~= a@.skip(i + 1));
            assert(b@.skip(i as int).drop_first() =~= b@.skip(i + 1));
        }
        i = i + 1;
    }
    if i == la {
        i < lb
    } else if i == lb {
        false
    } else {
        (a.get_char(i) as u32) < (b.get_char(i) as u32)
    }
}

proof fn lemma_key_lt_irreflexive(a: Seq<char>)
    ensures
        !key_lt(a, a),
    decreases a.len(),
{
    if a.len() > 0 {
        lemma_key_lt_irreflexive(a.drop_first());
    }
}

/// Key order is a strict total order.
proof fn lemma_key_lt_total(a: Seq<char>, b: Seq<char>)
    ensures
        a != b ==> (key_lt(a, b) || key_lt(b, a)),
        !(key_lt(a, b) && key_lt(b, a)),
    decreases a.len(),
{
    if a.len() > 0 && b.len() > 0 && a[0] == b[0] {
        lemma_key_lt_total(a.drop_first(), b.drop_first());
        if a != b {
            assert(a =~= seq![a[0]] + a.drop_first());
            assert(b =~= seq![b[0]] + b.drop_first());
        }
    } else if a.len() > 0 && b.len() > 0 {
        assert((a[0] as int) != (b[0] as int));
    } else if a.len() == 0 && b.len() == 0 {
        assert(a =~= b);
    }
}

proof fn lemma_key_lt_transitive(a: Seq<char>, b: Seq<char>, c: Seq<char>)
    requires
        key_lt(a, b),
        key_lt(b, c),
    ensures
        key_lt(a, c),
    decreases a.len(),
{
    if a.len() > 0 && b.len() > 0 && c.len() > 0 && a[0] == b[0] && b[0] == c[0] {
        lemma_key_lt_transitive(a.drop_first(), b.drop_first(), c.drop_first());
    }
}

/// Members in strictly increasing key order.
pub open spec fn sorted_pairs(s: Seq<(Seq<char>, Seq<char>)>) -> bool {
    forall|i: int, j: int| 0 <= i < j < s.len() ==> key_lt(#[trigger] s[i].0, #[trigger] s[j].0)
}

proof fn lemma_insert_sorted(s: Seq<(Seq<char>, Seq<char>)>, m: (Seq<char>, Seq<char>))
    requires
        sorted_pairs(s),
    ensures
        sorted_pairs(insert_member(s, m)),
        forall|i: int| 0 <= i < insert_member(s, m).len() ==> (#[trigger] insert_member(s, m)[i]) == m
            || exists|j: int| 0 <= j < s.len() && s[j] == insert_member(s, m)[i],
    decreases s.len(),
{
    if s.len() == 0 {
    } else if s[0].0 == m.0 {
        let r = seq![m] + s.drop_first();
        assert forall|i: int, j: int| 0 <= i < j < r.len() implies key_lt(#[trigger] r[i].0, #[trigger] r[j].0) by {
            if i == 0 {
                assert(key_lt(s[0].0, s[j].0));
            } else {
                assert(r[i] == s[i] && r[j] == s[j]);
            }
        }
        assert forall|i: int| 0 <= i < r.len() implies (#[trigger] r[i]) == m
            || exists|j: int| 0 <= j < s.len() && s[j] == r[i] by {
            if i > 0 {
                assert(s[i] == r[i]);
            }
        }
    } else if key_lt(m.0, s[0].0) {
        let r = seq![m] + s;
        assert forall|i: int, j: int| 0 <= i < j < r.len() implies key_lt(#[trigger] r[i].0, #[trigger] r[j].0) by {
            if i == 0 {
                if j > 1 {
                    assert(key_lt(s[0].0, s[j - 1].0));
                    lemma_key_lt_transitive(m.0, s[0].0, s[j - 1].0);
                }
            } else {
                assert(r[i] == s[i - 1] && r[j] == s[j - 1]);
            }
        }
        assert forall|i: int| 0 <= i < r.len() implies (#[trigger] r[i]) == m
            || exists|j: int| 0 <= j < s.len() && s[j] == r[i] by {
            if i > 0 {
                assert(s[i - 1] == r[i]);
            }
        }
    } else {
        let t = s.drop_first();
        assert(sorted_pairs(t)) by {
            assert forall|i: int, j: int| 0 <= i < j < t.len() implies key_lt(#[trigger] t[i].0, #[trigger] t[j].0) by {
                assert(t[i] == s[i + 1] && t[j] == s[j + 1]);
            }
        }
        lemma_insert_sorted(t, m);
        let it = insert_member(t, m);
        let r = seq![s[0]] + it;
        lemma_key_lt_total(m.0, s[0].0);
        assert forall|i: int, j: int| 0 <= i < j < r.len() implies key_lt(#[trigger] r[i].0, #[trigger] r[j].0) by {
            if i == 0 {
                assert(r[j] == it[j - 1]);
                if it[j - 1] != m {
                    let k = choose|k: int| 0 <= k < t.len() && t[k] == it[j - 1];
                    assert(t[k] == s[k + 1]);
                    assert(key_lt(s[0].0, s[k + 1].0));
                }
            } else {
                assert(r[i] == it[i - 1] && r[j] == it[j - 1]);
            }
        }
        assert forall|i: int| 0 <= i < r.len() implies (#[trigger] r[i]) == m
            || exists|j: int| 0 <= j < s.len() && s[j] == r[i] by {
            if i > 0 {
                assert(r[i] == it[i - 1]);
                if it[i - 1] != m {
                    let k = choose|k: int| 0 <= k < t.len() && t[k] == it[i - 1];
                    assert(s[k + 1] == r[i]);
                }
            } else {
                assert(s[0] == r[0]);
            }
        }
    }
}

proof fn lemma_normalized_sorted(s: Seq<(Seq<char>, Seq<char>)>)
    ensures
        sorted_pairs(normalized(s)),
    decreases s.len(),
{
    if s.len() > 0 {
        lemma_normalized_sorted(s.drop_last());
        lemma_insert_sorted(normalized(s.drop_last()), s.last());
    }
}

/// Adding two members with different keys gives the same result in either order.
proof fn lemma_insert_commutes(s: Seq<(Seq<char>, Seq<char>)>, a: (Seq<char>, Seq<char>), b: (Seq<char>, Seq<char>))
    requires
        sorted_pairs(s),
        a.0 != b.0,
    ensures
        insert_member(insert_member(s, a), b) == insert_member(insert_member(s, b), a),
    decreases s.len(),
{
    lemma_key_lt_total(a.0, b.0);
    if s.len() == 0 {
        assert(seq![a].drop_first() =~= Seq::<(Seq<char>, Seq<char>)>::empty());
        assert(seq![b].drop_first() =~= Seq::<(Seq<char>, Seq<char>)>::empty());
        reveal_with_fuel(insert_member, 2);
        if key_lt(a.0, b.0) {
            assert(insert_member(insert_member(s, a), b) =~= seq![a, b]);
            assert(insert_member(insert_member(s, b), a) =~= seq![a, b]);
        } else {
            assert(insert_member(insert_member(s, a), b) =~= seq![b, a]);
            assert(insert_member(insert_member(s, b), a) =~= seq![b, a]);
        }
    } else {
        let x = s[0];
        let t = s.drop_first();
        assert(sorted_pairs(t)) by {
            assert forall|i: int, j: int| 0 <= i < j < t.len() implies key_lt(#[trigger] t[i].0, #[trigger] t[j].0) by {
                assert(t[i] == s[i + 1] && t[j] == s[j + 1]);
            }
        }
        lemma_key_lt_total(a.0, x.0);
        lemma_key_lt_total(b.0, x.0);
        lemma_key_lt_irreflexive(a.0);
        lemma_key_lt_irreflexive(b.0);
        assert((seq![a] + t).drop_first() =~= t);
        assert((seq![b] + t).drop_first() =~= t);
        assert((seq![a] + s).drop_first() =~= s);
        assert((seq![b] + s).drop_first() =~= s);
        assert((seq![x] + t) =~= s);
        let a_gt = a.0 != x.0 && !key_lt(a.0, x.0);
        let b_gt = b.0 != x.0 && !key_lt(b.0, x.0);
        if a_gt && b_gt {
            lemma_insert_commutes(t, a, b);
            let ia = insert_member(t, a);
            let ib = insert_member(t, b);
            assert(insert_member(s, a) == seq![x] + ia);
            assert(insert_member(s, b) == seq![x] + ib);
            assert((seq![x] + ia)[0] == x);
            assert((seq![x] + ia).drop_first() =~= ia);
            assert((seq![x] + ib)[0] == x);
            assert((seq![x] + ib).drop_first() =~= ib);
            assert(insert_member(seq![x] + ia, b) == seq![x] + insert_member(ia, b));
            assert(insert_member(seq![x] + ib, a) == seq![x] + insert_member(ib, a));
        } else {
            if a_gt {
                assert(key_lt(x.0, a.0));
                if key_lt(b.0, x.0) {
                    lemma_key_lt_transitive(b.0, x.0, a.0);
                }
            }
            if b_gt {
                assert(key_lt(x.0, b.0));
                if key_lt(a.0, x.0) {
                    lemma_key_lt_transitive(a.0, x.0, b.0);
                }
            }
            reveal_with_fuel(insert_member, 3);
            let sa = insert_member(s, a);
            let sb = insert_member(s, b);
            if a.0 == x.0 {
                assert(sa == seq![a] + t);
                assert((seq![a] + t)[0] == a);
                assert((seq![a] + t).drop_first() =~= t);
            } else if key_lt(a.0, x.0) {
                assert(sa == seq![a] + s);
                assert((seq![a] + s)[0] == a);
            } else {
                assert(sa == seq![x] + insert_member(t, a));
                assert((seq![x] + insert_member(t, a))[0] == x);
                assert((seq![x] + insert_member(t, a)).drop_first() =~= insert_member(t, a));
            }
            if b.0 == x.0 {
                assert(sb == seq![b] + t);
                assert((seq![b] + t)[0] == b);
                assert((seq![b] + t).drop_first() =~= t);
            } else if key_lt(b.0, x.0) {
                assert(sb == seq![b] + s);
                assert((seq![b] + s)[0] == b);
            } else {
                assert(sb == seq![x] + insert_member(t, b));
                assert((seq![x] + insert_member(t, b))[0] == x);
                assert((seq![x] + insert_member(t, b)).drop_first() =~= insert_member(t, b));
            }
            assert(insert_member(sa, b) =~= insert_member(sb, a));
        }
    }
}

proof fn lemma_normalized_swap(
    p: Seq<(Seq<char>, Seq<char>)>,
    a: (Seq<char>, Seq<char>),
    b: (Seq<char>, Seq<char>),
    q: Seq<(Seq<char>, Seq<char>)>,
)
    requires
        a.0 != b.0,
    ensures
        normalized(p + seq![a, b] + q) == normalized(p + seq![b, a] + q),
    decreases q.len(),
{
    if q.len() == 0 {
        let pa = p + seq![a];
        let pb = p + seq![b];
        assert(p + seq![a, b] + q =~= pa.push(b));
        assert(p + seq![b, a] + q =~= pb.push(a));
        assert(pa.drop_last() =~= p);
        assert(pb.drop_last() =~= p);
        assert(pa.push(b).drop_last() =~= pa);
        assert(pb.push(a).drop_last() =~= pb);
        assert(normalized(pa) == insert_member(normalized(p), a));
        assert(normalized(pb) == insert_member(normalized(p), b));
        assert(normalized(pa.push(b)) == insert_member(normalized(pa), b));
        assert(normalized(pb.push(a)) == insert_member(normalized(pb), a));
        lemma_normalized_sorted(p);
        lemma_insert_commutes(normalized(p), a, b);
    } else {
        lemma_normalized_swap(p, a, b, q.drop_last());
        let x = p + seq![a, b] + q;
        let y = p + seq![b, a] + q;
        assert(x.drop_last() =~= p + seq![a, b] + q.drop_last());
        assert(y.drop_last() =~= p + seq![b, a] + q.drop_last());
        assert(x.last() == q.last() && y.last() == q.last());
        assert(normalized(x) == insert_member(normalized(x.drop_last()), x.last()));
        assert(normalized(y) == insert_member(normalized(y.drop_last()), y.last()));
    }
}

proof fn lemma_encoded_concat(x: Seq<(Seq<char>, Json)>, y: Seq<(Seq<char>, Json)>)
    ensures
        encoded_members(x + y) == encoded_members(x) + encoded_members(y),
    decreases y.len(),
{
    if y.len() == 0 {
        assert(x + y =~= x);
        assert(encoded_members(x) + encoded_members(y) =~= encoded_members(x));
    } else {
        lemma_encoded_concat(x, y.drop_last());
        assert((x + y).drop_last() =~= x + y.drop_last());
        assert(encoded_members(x) + encoded_members(y) =~= (encoded_members(x) + encoded_members(y.drop_last())).push(
            (y.last().0, encode(y.last().1)),
        ));
    }
}

/// The canonical text of an object does not depend on the order its members were written
/// in: swapping two neighbouring members with different keys leaves it unchanged.
pub proof fn lemma_member_order_irrelevant(
    p: Seq<(Seq<char>, Json)>,
    a: (Seq<char>, Json),
    b: (Seq<char>, Json),
    q: Seq<(Seq<char>, Json)>,
)
    requires
        a.0 != b.0,
    ensures
        encode(Json::Object(p + seq![a, b] + q)) == encode(Json::Object(p + seq![b, a] + q)),
{
    let ea = (a.0, encode(a.1));
    let eb = (b.0, encode(b.1));
    lemma_encoded_concat(p + seq![a, b], q);
    lemma_encoded_concat(p, seq![a, b]);
    lemma_encoded_concat(p + seq![b, a], q);
    lemma_encoded_concat(p, seq![b, a]);
    reveal_with_fuel(encoded_members, 3);
    assert(seq![a, b].drop_last() =~= seq![a]);
    assert(seq![a].drop_last() =~= Seq::<(Seq<char>, Json)>::empty());
    assert(seq![b, a].drop_last() =~= seq![b]);
    assert(seq![b].drop_last() =~= Seq::<(Seq<char>, Json)>::empty());
    assert(encoded_members(seq![a, b]) =~= seq![ea, eb]);
    assert(encoded_members(seq![b, a]) =~= seq![eb, ea]);
    lemma_normalized_swap(encoded_members(p), ea, eb, encoded_members(q));
}

/// The canonical text of `v`.
pub fn canonical_text(v: &JsonValue) -> (r: String)
    ensures
        r@ == encode(v@),
{
    let mut out = String::new();
    write_canonical(v, &mut out);
    assert(out@ =~= encode(v@));
    out
}


/// The last member of `members` named `key`, as serde_json keeps it when a key repeats.
pub open spec fn lookup(members: Seq<(Seq<char>, Json)>, key: Seq<char>) -> Option<Json>
    decreases members.len(),
{
    if members.len() == 0 {
        None
    } else if members.last().0 == key {
        Some(members.last().1)
    } else {
        lookup(members.drop_last(), key)
    }
}

/// The member `key` of an object; `None` for a missing member or a value that is no object.
pub open spec fn member(j: Json, key: Seq<char>) -> Option<Json> {
    match j {
        Json::Object(members) => lookup(members, key),
        _ => None,
    }
}

/// The member `key` when it is a string.
pub open spec fn str_member(j: Json, key: Seq<char>) -> Option<Seq<char>> {
    match member(j, key) {
        Some(Json::Str(s)) => Some(s),
        _ => None,
    }
}

pub proof fn lemma_members_index(s: Seq<(String, JsonValue)>, i: int)
    requires
        0 <= i < s.len(),
    ensures
        members_of(s).len() == s.len(),
        members_of(s)[i] == (s[i].0@, json_of(s[i].1)),
    decreases s.len(),
{
    lemma_members_len(s);
    if i < s.len() - 1 {
        lemma_members_index(s.drop_last(), i);
    }
}

pub proof fn lemma_items_index(s: Seq<JsonValue>, i: int)
    requires
        0 <= i < s.len(),
    ensures
        items_of(s).len() == s.len(),
        items_of(s)[i] == json_of(s[i]),
    decreases s.len(),
{
    lemma_items_len(s);
    if i < s.len() - 1 {
        lemma_items_index(s.drop_last(), i);
    }
}

impl JsonValue {
    /// The member `key` of this object, if it is an object that has one.
    pub fn get(&self, key: &str) -> (r: Option<&JsonValue>)
        ensures
            match r {
                Some(x) => member(self@, key@) == Some(x@),
                None => member(self@, key@) is None,
            },
    {
        match self {
            JsonValue::Object(members) => {
                let wanted = String::from_str(key);
                let mut i: usize = members.len();
                proof {
                    lemma_members_len(members@);
                    assert(members@.take(i as int) =~= members@);
                }
                while i > 0
                    invariant
                        i <= members.len(),
                        *self == JsonValue::Object(*members),
                        wanted@ == key@,
                        lookup(members_of(members@), key@) == lookup(members_of(members@.take(i as int)), key@),
                    decreases i,
                {
                    let ghost t = members@.take(i as int);
                    proof {
                        lemma_members_len(t);
                        assert(t.drop_last() =~= members@.take(i - 1));
                        lemma_members_index(t, i - 1);
                        assert(members_of(t) == members_of(t.drop_last()).push((t.last().0@, json_of(t.last().1))));
                        assert(members_of(t).drop_last() =~= members_of(t.drop_last()));
                    }
                    if members[i - 1].0 == wanted {
                        return Some(&members[i - 1].1);
                    }
                    i = i - 1;
                }
                proof {
                    assert(members@.take(0) =~= Seq::<(String, JsonValue)>::empty());
                }
                None
            },
            _ => None,
        }
    }

    /// The characters of this value when it is a string.
    pub fn as_str(&self) -> (r: Option<&String>)
        ensures
            match r {
                Some(s) => self@ == Json::Str(s@),
                None => !(self@ is Str),
            },
    {
        match self {
            JsonValue::Str(s) => Some(s),
            _ => None,
        }
    }

    /// The member `key` of this object when it is a string.
    pub fn get_str(&self, key: &str) -> (r: Option<String>)
        ensures
            match r {
                Some(s) => str_member(self@, key@) == Some(s@),
                None => str_member(self@, key@) is None,
            },
    {
        match self.get(key) {
            Some(v) => match v.as_str() {
                Some(s) => Some(s.clone()),
                None => None,
            },
            None => None,
        }
    }
}

/// A string value holding the characters of `s`.
pub fn json_str(s: &str) -> (r: JsonValue)
    ensures
        r@ == Json::Str(s@),
{
    JsonValue::Str(String::from_str(s))
}

/// Appends the member `key: value` to an object under construction.
pub fn push_member(members: &mut Vec<(String, JsonValue)>, key: &str, value: JsonValue)
    ensures
        members_of(final(members)@) == members_of(old(members)@).push((key@, value@)),
{
    let ghost before = members@;
    members.push((String::from_str(key), value));
    assert(members@.drop_last() =~= before);
}

/// Appends an element to an array under construction.
pub fn push_item(items: &mut Vec<JsonValue>, value: JsonValue)
    ensures
        items_of(final(items)@) == items_of(old(items)@).push(value@),
{
    let ghost before = items@;
    items.push(value);
    assert(items@.drop_last() =~= before);
}


impl JsonValue {
    /// A copy of this value, equal to it member for member.
    pub fn deep_copy(&self) -> (r: JsonValue)
        ensures
            r@ == self@,
        decreases self,
    {
        match self {
            JsonValue::Null => JsonValue::Null,
            JsonValue::Bool(b) => JsonValue::Bool(*b),
            JsonValue::Int(i) => JsonValue::Int(*i),
            JsonValue::Number(n) => JsonValue::Number(n.clone()),
            JsonValue::Str(s) => JsonValue::Str(s.clone()),
            JsonValue::Array(items) => {
                let mut out: Vec<JsonValue> = Vec::new();
                let mut i: usize = 0;
                while i < items.len()
                    invariant
                        i <= items.len(),
                        *self == JsonValue::Array(*items),
                        items_of(out@) == items_of(items@.take(i as int)),
                    decreases items.len() - i,
                {
                    proof {
                        vstd::std_specs::vec::axiom_vec_index_decreases(*items, i as int);
                        assert(decreases_to!(*self => (*self)->Array_0));
                        assert(decreases_to!(*items => items[i as int]));
                        lemma_items_step(items@, i as int);
                    }
                    push_item(&mut out, items[i].deep_copy());
                    i = i + 1;
                }
                proof {
                    assert(items@.take(items.len() as int) =~= items@);
                }
                JsonValue::Array(out)
            },
            JsonValue::Object(members) => {
                let mut out: Vec<(String, JsonValue)> = Vec::new();
                let mut i: usize = 0;
                while i < members.len()
                    invariant
                        i <= members.len(),
                        *self == JsonValue::Object(*members),
                        members_of(out@) == members_of(members@.take(i as int)),
                    decreases members.len() - i,
                {
                    proof {
                        vstd::std_specs::vec::axiom_vec_index_decreases(*members, i as int);
                        assert(decreases_to!(*self => (*self)->Object_0));
                        assert(decreases_to!(*members => members[i as int]));
                        assert(decreases_to!(members[i as int] => members[i as int].1));
                        lemma_members_step(members@, i as int);
                    }
                    let value = members[i].1.deep_copy();
                    let ghost before = out@;
                    out.push((members[i].0.clone(), value));
                    proof {
                        assert(out@.drop_last() =~= before);
                    }
                    i = i + 1;
                }
                proof {
                    assert(members@.take(members.len() as int) =~= members@);
                }
                JsonValue::Object(out)
            },
        }
    }
}

impl Clone for JsonValue {
    fn clone(&self) -> (r: JsonValue)
        ensures
            r@ == self@,
    {
        self.deep_copy()
    }
}

/// The member `key`, or `null` when there is none, as indexing a serde_json value gives.
pub open spec fn member_or_null(j: Json, key: Seq<char>) -> Json {
    match member(j, key) {
        Some(x) => x,
        None => Json::Null,
    }
}

} // verus!
