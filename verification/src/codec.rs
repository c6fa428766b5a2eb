//! A lossless text form for property maps: one `key=value` line per entry,
//! the escape character doubling itself and guarding the two delimiters.
//! Serializing a map and re-parsing the text yields the map again, for every
//! key and value — the serializer's contract says so, and the parser is
//! verified against the same character-level reading of the text.

use crate::assoc::{AssocMap, PropMap};
use crate::outside::chars_to_string;
use vstd::prelude::*;

verus! {

/// How one character is written: the escape character precedes itself and
/// the two delimiters; everything else stands as it is.
pub open spec fn esc_char(c: char) -> Seq<char> {
    if c == '\\' || c == '=' || c == '\n' {
        seq!['\\', c]
    } else {
        seq![c]
    }
}

/// A string's escaped form.
pub open spec fn escape(s: Seq<char>) -> Seq<char>
    decreases s.len(),
{
    if s.len() == 0 {
        Seq::empty()
    } else {
        escape(s.drop_last()) + esc_char(s.last())
    }
}

/// One entry's line: escaped key, the separator, escaped value, a newline.
pub open spec fn entry_text(k: Seq<char>, v: Seq<char>) -> Seq<char> {
    escape(k) + seq!['='] + escape(v) + seq!['\n']
}

/// The parser's state: whether the last character was the escape character,
/// whether the cursor stands in the value part, the two accumulators, and
/// the map committed so far.
#[verifier::ext_equal]
pub ghost struct PState {
    pub esc: bool,
    pub in_value: bool,
    pub key: Seq<char>,
    pub val: Seq<char>,
    pub out: Map<Seq<char>, Seq<char>>,
}

pub open spec fn init_pstate(out: Map<Seq<char>, Seq<char>>) -> PState {
    PState { esc: false, in_value: false, key: Seq::empty(), val: Seq::empty(), out }
}

/// How one character moves the parser: an escaped character lands in the
/// open accumulator literally; the escape character opens an escape; the
/// separator switches from key to value; a newline commits the entry.
pub open spec fn pstep(st: PState, c: char) -> PState {
    if st.esc {
        if st.in_value {
            PState { esc: false, val: st.val.push(c), ..st }
        } else {
            PState { esc: false, key: st.key.push(c), ..st }
        }
    } else if c == '\\' {
        PState { esc: true, ..st }
    } else if c == '=' && !st.in_value {
        PState { in_value: true, ..st }
    } else if c == '\n' {
        PState {
            esc: false,
            in_value: false,
            key: Seq::empty(),
            val: Seq::empty(),
            out: st.out.insert(st.key, st.val),
        }
    } else {
        if st.in_value {
            PState { val: st.val.push(c), ..st }
        } else {
            PState { key: st.key.push(c), ..st }
        }
    }
}

pub open spec fn pfold(st: PState, s: Seq<char>) -> PState
    decreases s.len(),
{
    if s.len() == 0 {
        st
    } else {
        pstep(pfold(st, s.drop_last()), s.last())
    }
}

pub proof fn lemma_pfold_step(st: PState, s: Seq<char>, i: int)
    requires
        0 <= i < s.len(),
    ensures
        pfold(st, s.take(i + 1)) == pstep(pfold(st, s.take(i)), s[i]),
{
    assert(s.take(i + 1).drop_last() =~= s.take(i));
    assert(s.take(i + 1).last() == s[i]);
}

pub proof fn lemma_pfold_append(st: PState, a: Seq<char>, b: Seq<char>)
    ensures
        pfold(st, a + b) == pfold(pfold(st, a), b),
    decreases b.len(),
{
    if b.len() == 0 {
        assert(a + b =~= a);
    } else {
        lemma_pfold_append(st, a, b.drop_last());
        assert((a + b).drop_last() =~= a + b.drop_last());
        assert((a + b).last() == b.last());
    }
}

/// Parsing a string's escaped form accumulates exactly that string.
proof fn lemma_pfold_escape(st: PState, s: Seq<char>)
    requires
        !st.esc,
    ensures
        pfold(st, escape(s)) == if st.in_value {
            PState { val: st.val + s, ..st }
        } else {
            PState { key: st.key + s, ..st }
        },
    decreases s.len(),
{
    if s.len() == 0 {
        if st.in_value {
            assert(PState { val: st.val + s, ..st } =~= st);
        } else {
            assert(PState { key: st.key + s, ..st } =~= st);
        }
    } else {
        reveal_with_fuel(pfold, 4);
        let t = s.drop_last();
        let c = s.last();
        lemma_pfold_escape(st, t);
        lemma_pfold_append(st, escape(t), esc_char(c));
        let mid = pfold(st, escape(t));
        assert(escape(s) == escape(t) + esc_char(c));
        if c == '\\' || c == '=' || c == '\n' {
            assert(esc_char(c) == seq!['\\', c]);
            assert(esc_char(c).drop_last() =~= seq!['\\']);
            assert(esc_char(c).last() == c);
            assert(seq!['\\'].drop_last() =~= Seq::<char>::empty());
            assert(seq!['\\'].last() == '\\');
            assert(pfold(mid, esc_char(c)) == pstep(pstep(mid, '\\'), c));
        } else {
            assert(esc_char(c) == seq![c]);
            assert(esc_char(c).drop_last() =~= Seq::<char>::empty());
            assert(esc_char(c).last() == c);
            assert(pfold(mid, esc_char(c)) == pstep(mid, c));
        }
        if st.in_value {
            assert(st.val + t + seq![c] =~= st.val + s);
            assert(pfold(st, escape(s)) =~= (PState { val: st.val + s, ..st }));
        } else {
            assert(st.key + t + seq![c] =~= st.key + s);
            assert(pfold(st, escape(s)) =~= (PState { key: st.key + s, ..st }));
        }
    }
}

/// Parsing one entry's line from a between-entries state commits exactly
/// that entry.
proof fn lemma_pfold_entry(out: Map<Seq<char>, Seq<char>>, k: Seq<char>, v: Seq<char>)
    ensures
        pfold(init_pstate(out), entry_text(k, v)) == init_pstate(out.insert(k, v)),
{
    reveal_with_fuel(pfold, 4);
    let st0 = init_pstate(out);
    lemma_pfold_escape(st0, k);
    let st1 = PState { key: k, ..st0 };
    assert(Seq::<char>::empty() + k =~= k);
    lemma_pfold_append(st0, escape(k), seq!['=']);
    assert(seq!['='].drop_last() =~= Seq::<char>::empty());
    assert(seq!['='].last() == '=');
    let st2 = pstep(st1, '=');
    assert(pfold(st0, escape(k) + seq!['=']) == st2);
    lemma_pfold_escape(st2, v);
    lemma_pfold_append(st0, escape(k) + seq!['='], escape(v));
    assert((escape(k) + seq!['=']) + escape(v) =~= escape(k) + seq!['='] + escape(v));
    let st3 = PState { val: v, ..st2 };
    assert(Seq::<char>::empty() + v =~= v);
    lemma_pfold_append(st0, escape(k) + seq!['='] + escape(v), seq!['\n']);
    assert(seq!['\n'].drop_last() =~= Seq::<char>::empty());
    assert(seq!['\n'].last() == '\n');
    assert(pfold(st0, escape(k) + seq!['='] + escape(v)) == st3);
    assert((escape(k) + seq!['='] + escape(v)) + seq!['\n'] =~= entry_text(k, v));
    assert(pstep(st3, '\n') =~= init_pstate(out.insert(k, v)));
}

/// Reads a string's characters out, in order.
fn str_chars(s: &str) -> (out: Vec<char>)
    ensures
        out@ == s@,
{
    let n = s.unicode_len();
    let mut out: Vec<char> = Vec::new();
    let mut i: usize = 0;
    while i < n
        invariant
            n == s@.len(),
            0 <= i <= n,
            out@ == s@.take(i as int),
        decreases n - i,
    {
        out.push(s.get_char(i));
        proof {
            assert(s@.take(i + 1) =~= s@.take(i as int).push(s@[i as int]));
        }
        i = i + 1;
    }
    proof {
        assert(s@.take(n as int) =~= s@);
    }
    out
}

/// Appends a string's escaped form.
fn escape_push(s: &str, out: &mut Vec<char>)
    ensures
        final(out)@ == old(out)@ + escape(s@),
{
    let chars = str_chars(s);
    let n = chars.len();
    let mut i: usize = 0;
    while i < n
        invariant
            n == chars.len(),
            chars@ == s@,
            0 <= i <= n,
            out@ == old(out)@ + escape(s@.take(i as int)),
        decreases n - i,
    {
        let c = chars[i];
        if c == '\\' || c == '=' || c == '\n' {
            out.push('\\');
            out.push(c);
        } else {
            out.push(c);
        }
        proof {
            assert(s@.take(i + 1).drop_last() =~= s@.take(i as int));
            assert(s@.take(i + 1).last() == s@[i as int]);
            assert(out@ =~= old(out)@ + escape(s@.take(i + 1)));
        }
        i = i + 1;
    }
    proof {
        assert(s@.take(n as int) =~= s@);
    }
}

/// Serializes a property map, one entry per line, in the map's held order.
/// The contract is the round trip itself: parsing the text yields exactly
/// this map's contents.
pub fn serialize_props(m: &PropMap) -> (out: Vec<char>)
    ensures
        pfold(init_pstate(Map::empty()), out@).out == m@,
{
    proof {
        use_type_invariant(&*m);
    }
    let n = m.entries.len();
    let mut out: Vec<char> = Vec::new();
    let mut i: usize = 0;
    while i < n
        invariant
            n == m.entries.len(),
            0 <= i <= n,
            pfold(init_pstate(Map::empty()), out@) == init_pstate(
                AssocMap::<String>::map_of(m.entries@.take(i as int)),
            ),
        decreases n - i,
    {
        let ghost st_before = pfold(init_pstate(Map::<Seq<char>, Seq<char>>::empty()), out@);
        let ghost out0 = out@;
        escape_push(m.entries[i].0.as_str(), &mut out);
        out.push('=');
        escape_push(m.entries[i].1.as_str(), &mut out);
        out.push('\n');
        proof {
            let k = m.entries@[i as int].0@;
            let v = m.entries@[i as int].1@;
            assert(out@ =~= out0 + entry_text(k, v));
            lemma_pfold_append(init_pstate(Map::empty()), out0, entry_text(k, v));
            lemma_pfold_entry(AssocMap::<String>::map_of(m.entries@.take(i as int)), k, v);
            assert(m.entries@.take(i + 1).drop_last() =~= m.entries@.take(i as int));
            assert(m.entries@.take(i + 1).last() == m.entries@[i as int]);
        }
        i = i + 1;
    }
    proof {
        assert(m.entries@.take(n as int) =~= m.entries@);
        m.lemma_view_is_map_of();
    }
    out
}

/// Parses a property-map text: the committed entries of every complete line,
/// later lines overwriting earlier ones; an unterminated trailing line is
/// dropped, as the fold says.
pub fn parse_props(text: &Vec<char>) -> (r: PropMap)
    ensures
        r@ == pfold(init_pstate(Map::empty()), text@).out,
{
    let mut map: PropMap = AssocMap::new();
    let mut key: Vec<char> = Vec::new();
    let mut val: Vec<char> = Vec::new();
    let mut esc = false;
    let mut in_value = false;
    let n = text.len();
    let mut i: usize = 0;
    while i < n
        invariant
            n == text.len(),
            0 <= i <= n,
            pfold(init_pstate(Map::empty()), text@.take(i as int)) == (PState {
                esc: esc,
                in_value: in_value,
                key: key@,
                val: val@,
                out: map@,
            }),
        decreases n - i,
    {
        proof {
            lemma_pfold_step(init_pstate(Map::empty()), text@, i as int);
        }
        let c = text[i];
        if esc {
            if in_value {
                val.push(c);
            } else {
                key.push(c);
            }
            esc = false;
        } else if c == '\\' {
            esc = true;
        } else if c == '=' && !in_value {
            in_value = true;
        } else if c == '\n' {
            let key_string = chars_to_string(&key);
            let val_string = chars_to_string(&val);
            map.insert(key_string, val_string);
            key = Vec::new();
            val = Vec::new();
            esc = false;
            in_value = false;
        } else {
            if in_value {
                val.push(c);
            } else {
                key.push(c);
            }
        }
        proof {
            assert(pfold(init_pstate(Map::empty()), text@.take(i + 1)) =~= (PState {
                esc: esc,
                in_value: in_value,
                key: key@,
                val: val@,
                out: map@,
            }));
        }
        i = i + 1;
    }
    proof {
        assert(text@.take(n as int) =~= text@);
    }
    map
}

} // verus!
