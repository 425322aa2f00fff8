//! Strings as the rest of the library sees them: trimming, the order of `str`, joining.

use vstd::prelude::*;
use vstd::string::StringExecFns;
use vstd::utf8::{encode_utf8, encode_utf8_decode_utf8};

verus! {

/// The Unicode `White_Space` property.
pub open spec fn is_white_space(c: char) -> bool {
    let n = c as u32;
    ||| 0x9 <= n <= 0xd
    ||| n == 0x20
    ||| n == 0x85
    ||| n == 0xa0
    ||| n == 0x1680
    ||| 0x2000 <= n <= 0x200a
    ||| n == 0x2028
    ||| n == 0x2029
    ||| n == 0x202f
    ||| n == 0x205f
    ||| n == 0x3000
}

/// Every character of `s` is white space.
pub open spec fn is_blank(s: Seq<char>) -> bool {
    forall|i: int| 0 <= i < s.len() ==> is_white_space(#[trigger] s[i])
}

/// `s` without the white space at its two ends.
pub open spec fn trimmed(s: Seq<char>) -> Seq<char>
    decreases s.len(),
{
    if s.len() > 0 && is_white_space(s[0]) {
        trimmed(s.drop_first())
    } else if s.len() > 0 && is_white_space(s.last()) {
        trimmed(s.drop_last())
    } else {
        s
    }
}

/// `str::trim`: the slice without leading and trailing white space, where white space is the
/// Unicode `White_Space` property.
pub assume_specification[ str::trim ](s: &str) -> (res: &str)
    ensures
        res@ == trimmed(s@),
;

/// The `White_Space` characters that open `s`, and those that close what is left.
proof fn lemma_trimmed_parts(s: Seq<char>) -> (parts: (Seq<char>, Seq<char>))
    ensures
        s == parts.0 + trimmed(s) + parts.1,
        is_blank(parts.0),
        is_blank(parts.1),
    decreases s.len(),
{
    if s.len() > 0 && is_white_space(s[0]) {
        let (front, back) = lemma_trimmed_parts(s.drop_first());
        let longer = seq![s[0]] + front;
        let rest = front + trimmed(s) + back;
        assert(s.drop_first() == rest);
        assert(s =~= seq![s[0]] + rest);
        assert(s =~= longer + trimmed(s) + back);
        (longer, back)
    } else if s.len() > 0 && is_white_space(s.last()) {
        let (front, back) = lemma_trimmed_parts(s.drop_last());
        let longer = back.push(s.last());
        let rest = front + trimmed(s) + back;
        assert(s.drop_last() == rest);
        assert(s =~= rest.push(s.last()));
        assert(s =~= front + trimmed(s) + longer);
        (front, longer)
    } else {
        assert(s =~= Seq::<char>::empty() + s + Seq::<char>::empty());
        (Seq::empty(), Seq::empty())
    }
}

/// Trimming takes white space off the two ends and leaves the rest as it was: what is left is
/// empty, or begins and ends with a character that is not white space.
pub proof fn law_trimmed_takes_only_the_ends(s: Seq<char>)
    ensures
        exists|front: Seq<char>, back: Seq<char>|
            #![trigger is_blank(front), is_blank(back)]
            is_blank(front) && is_blank(back) && s == front + trimmed(s) + back,
        trimmed(s).len() > 0 ==> !is_white_space(trimmed(s)[0]) && !is_white_space(
            trimmed(s).last(),
        ),
{
    let (front, back) = lemma_trimmed_parts(s);
    assert(is_blank(front) && is_blank(back) && s == front + trimmed(s) + back);
    lemma_trimmed_edges(s);
}

proof fn lemma_trimmed_edges(s: Seq<char>)
    ensures
        trimmed(s).len() > 0 ==> !is_white_space(trimmed(s)[0]) && !is_white_space(
            trimmed(s).last(),
        ),
    decreases s.len(),
{
    if s.len() > 0 && is_white_space(s[0]) {
        lemma_trimmed_edges(s.drop_first());
    } else if s.len() > 0 && is_white_space(s.last()) {
        lemma_trimmed_edges(s.drop_last());
    }
}

/// Trimming leaves nothing of a string exactly when the string is blank.
pub proof fn law_trimmed_empty_iff_blank(s: Seq<char>)
    ensures
        trimmed(s).len() == 0 <==> is_blank(s),
{
    let (front, back) = lemma_trimmed_parts(s);
    lemma_trimmed_edges(s);
    let t = trimmed(s);
    if t.len() > 0 {
        assert(s[front.len() as int] == t[0]);
    } else {
        assert(s =~= front + back);
        assert forall|i: int| 0 <= i < s.len() implies is_white_space(#[trigger] s[i]) by {
            if i < front.len() {
                assert(s[i] == front[i]);
            } else {
                assert(s[i] == back[i - front.len()]);
            }
        }
    }
}

/// What has been trimmed once stays as it is.
pub proof fn law_trimmed_twice(s: Seq<char>)
    ensures
        trimmed(trimmed(s)) == trimmed(s),
{
    lemma_trimmed_edges(s);
}

/// White space around a string makes no difference to what trimming leaves of it.
pub proof fn law_trimmed_ignores_padding(front: Seq<char>, s: Seq<char>, back: Seq<char>)
    requires
        is_blank(front),
        is_blank(back),
    ensures
        trimmed(front + s + back) == trimmed(s),
    decreases front.len(),
{
    let padded = front + s + back;
    if front.len() > 0 {
        assert(padded[0] == front[0]);
        assert(padded.drop_first() =~= front.drop_first() + s + back);
        law_trimmed_ignores_padding(front.drop_first(), s, back);
    } else {
        assert(padded =~= s + back);
        lemma_trimmed_ignores_what_follows(s, back);
    }
}

proof fn lemma_trimmed_ignores_what_follows(s: Seq<char>, back: Seq<char>)
    requires
        is_blank(back),
    ensures
        trimmed(s + back) == trimmed(s),
    decreases s.len() + back.len(),
{
    let padded = s + back;
    if back.len() == 0 {
        assert(padded =~= s);
    } else if s.len() == 0 {
        assert(padded =~= back);
        law_trimmed_empty_iff_blank(back);
        assert(trimmed(back) =~= s);
    } else if is_white_space(s[0]) {
        assert(padded.drop_first() =~= s.drop_first() + back);
        lemma_trimmed_ignores_what_follows(s.drop_first(), back);
    } else {
        assert(padded.last() == back[back.len() - 1]);
        assert(padded.drop_last() =~= s + back.drop_last());
        lemma_trimmed_ignores_what_follows(s, back.drop_last());
    }
}

/// `a` comes before `b` in the lexicographic order of bytes.
pub open spec fn bytes_less(a: Seq<u8>, b: Seq<u8>) -> bool
    decreases a.len(),
{
    if b.len() == 0 {
        false
    } else if a.len() == 0 {
        true
    } else if a[0] != b[0] {
        a[0] < b[0]
    } else {
        bytes_less(a.drop_first(), b.drop_first())
    }
}

/// The order of `str`: lexicographic by the bytes of the UTF-8 encoding.
pub open spec fn text_less(a: Seq<char>, b: Seq<char>) -> bool {
    bytes_less(encode_utf8(a), encode_utf8(b))
}

/// The length that `str::len` counts: bytes of the UTF-8 encoding.
pub open spec fn byte_len(s: Seq<char>) -> nat {
    encode_utf8(s).len()
}

/// Strictly ascending in the order of `str`; nothing occurs twice.
pub open spec fn ascending(names: Seq<Seq<char>>) -> bool {
    forall|i: int, j: int|
        0 <= i < j < names.len() ==> text_less(#[trigger] names[i], #[trigger] names[j])
}

/// The texts of a list of strings.
pub open spec fn texts(names: Seq<String>) -> Seq<Seq<char>> {
    names.map_values(|s: String| s@)
}

proof fn lemma_bytes_less_irreflexive(a: Seq<u8>)
    ensures
        !bytes_less(a, a),
    decreases a.len(),
{
    if a.len() > 0 {
        lemma_bytes_less_irreflexive(a.drop_first());
    }
}

proof fn lemma_bytes_less_transitive(a: Seq<u8>, b: Seq<u8>, c: Seq<u8>)
    requires
        bytes_less(a, b),
        bytes_less(b, c),
    ensures
        bytes_less(a, c),
    decreases a.len(),
{
    if a.len() > 0 && a[0] == b[0] && b[0] == c[0] {
        lemma_bytes_less_transitive(a.drop_first(), b.drop_first(), c.drop_first());
    }
}

proof fn lemma_bytes_less_total(a: Seq<u8>, b: Seq<u8>)
    ensures
        a == b || bytes_less(a, b) || bytes_less(b, a),
    decreases a.len(),
{
    if a.len() > 0 && b.len() > 0 && a[0] == b[0] {
        lemma_bytes_less_total(a.drop_first(), b.drop_first());
        if a.drop_first() == b.drop_first() {
            assert(a =~= seq![a[0]] + a.drop_first());
            assert(b =~= seq![b[0]] + b.drop_first());
        }
    } else if a.len() == 0 && b.len() == 0 {
        assert(a =~= b);
    }
}

/// Two texts with the same encoding are the same text.
proof fn lemma_encoding_injective(a: Seq<char>, b: Seq<char>)
    requires
        encode_utf8(a) == encode_utf8(b),
    ensures
        a == b,
{
    encode_utf8_decode_utf8(a);
    encode_utf8_decode_utf8(b);
}

/// The order of strings is a strict total order.
pub proof fn law_text_less_is_a_strict_total_order(a: Seq<char>, b: Seq<char>, c: Seq<char>)
    ensures
        !text_less(a, a),
        text_less(a, b) && text_less(b, c) ==> text_less(a, c),
        a == b || text_less(a, b) || text_less(b, a),
{
    lemma_bytes_less_irreflexive(encode_utf8(a));
    if text_less(a, b) && text_less(b, c) {
        lemma_bytes_less_transitive(encode_utf8(a), encode_utf8(b), encode_utf8(c));
    }
    lemma_bytes_less_total(encode_utf8(a), encode_utf8(b));
    if encode_utf8(a) == encode_utf8(b) {
        lemma_encoding_injective(a, b);
    }
}

proof fn lemma_ascending_last_is_greatest(names: Seq<Seq<char>>, name: Seq<char>)
    requires
        ascending(names),
        names.contains(name),
        name != names.last(),
    ensures
        text_less(name, names.last()),
        names.drop_last().contains(name),
{
    let k = choose|k: int| 0 <= k < names.len() && names[k] == name;
    assert(text_less(names[k], names[names.len() - 1]));
    assert(names.drop_last()[k] == name);
}

/// An ascending list is determined by what it holds.
pub proof fn law_ascending_is_determined_by_its_set(a: Seq<Seq<char>>, b: Seq<Seq<char>>)
    requires
        ascending(a),
        ascending(b),
        a.to_set() == b.to_set(),
    ensures
        a == b,
    decreases a.len(),
{
    assert forall|t: Seq<char>| a.contains(t) == b.contains(t) by {
        assert(a.to_set().contains(t) == a.contains(t));
        assert(b.to_set().contains(t) == b.contains(t));
    }
    if a.len() == 0 || b.len() == 0 {
        if a.len() > 0 {
            assert(a.contains(a[0]));
        }
        if b.len() > 0 {
            assert(b.contains(b[0]));
        }
        assert(a =~= b);
    } else {
        let x = a.last();
        let y = b.last();
        assert(a.contains(x) && b.contains(y));
        if x != y {
            lemma_ascending_last_is_greatest(a, y);
            lemma_ascending_last_is_greatest(b, x);
            law_text_less_is_a_strict_total_order(x, y, x);
        }
        let a2 = a.drop_last();
        let b2 = b.drop_last();
        assert forall|t: Seq<char>| a2.contains(t) == b2.contains(t) by {
            if a2.contains(t) {
                let k = choose|k: int| 0 <= k < a2.len() && a2[k] == t;
                assert(text_less(a[k], a[a.len() - 1]));
                law_text_less_is_a_strict_total_order(x, x, x);
                assert(a.contains(a[k]));
                lemma_ascending_last_is_greatest(b, t);
            }
            if b2.contains(t) {
                let k = choose|k: int| 0 <= k < b2.len() && b2[k] == t;
                assert(text_less(b[k], b[b.len() - 1]));
                law_text_less_is_a_strict_total_order(y, y, y);
                assert(b.contains(b[k]));
                lemma_ascending_last_is_greatest(a, t);
            }
        }
        assert(a2.to_set() =~= b2.to_set());
        law_ascending_is_determined_by_its_set(a2, b2);
        assert(a =~= a2.push(x));
        assert(b =~= b2.push(y));
    }
}

/// Whether `a` comes before `b` in the order of `str`.
pub fn str_less(a: &str, b: &str) -> (less: bool)
    ensures
        less == text_less(a@, b@),
{
    let x = a.as_bytes();
    let y = b.as_bytes();
    let mut i: usize = 0;
    assert(x@.skip(0) =~= x@);
    assert(y@.skip(0) =~= y@);
    while i < x.len() && i < y.len() && x[i] == y[i]
        invariant
            i <= x@.len(),
            i <= y@.len(),
            bytes_less(x@, y@) == bytes_less(x@.skip(i as int), y@.skip(i as int)),
        decreases x@.len() - i,
    {
        assert(x@.skip(i as int).drop_first() =~= x@.skip(i + 1));
        assert(y@.skip(i as int).drop_first() =~= y@.skip(i + 1));
        i += 1;
    }
    if i >= y.len() {
        false
    } else if i >= x.len() {
        true
    } else {
        x[i] < y[i]
    }
}

/// Whether `a` and `b` are the same text.
pub fn str_same(a: &str, b: &str) -> (same: bool)
    ensures
        same == (a@ == b@),
{
    let x = a.as_bytes();
    let y = b.as_bytes();
    if x.len() != y.len() {
        return false;
    }
    let mut i: usize = 0;
    while i < x.len()
        invariant
            i <= x@.len(),
            x@.len() == y@.len(),
            x@ == encode_utf8(a@),
            y@ == encode_utf8(b@),
            forall|k: int| 0 <= k < i ==> x@[k] == y@[k],
        decreases x@.len() - i,
    {
        if x[i] != y[i] {
            return false;
        }
        i += 1;
    }
    proof {
        assert(x@ =~= y@);
        lemma_encoding_injective(a@, b@);
    }
    true
}

/// The items of `names` with `separator` between each two.
pub open spec fn joined(names: Seq<Seq<char>>, separator: Seq<char>) -> Seq<char>
    decreases names.len(),
{
    if names.len() == 0 {
        Seq::empty()
    } else if names.len() == 1 {
        names[0]
    } else {
        joined(names.drop_last(), separator) + separator + names.last()
    }
}

/// `names` with `separator` between each two.
pub fn join(names: &Vec<String>, separator: &str) -> (res: String)
    ensures
        res@ == joined(texts(names@), separator@),
{
    let mut res = String::new();
    let mut i: usize = 0;
    while i < names.len()
        invariant
            i <= names@.len(),
            res@ == joined(texts(names@).take(i as int), separator@),
        decreases names@.len() - i,
    {
        if i > 0 {
            res.append(separator);
        }
        res.append(names[i].as_str());
        proof {
            let more = texts(names@).take(i + 1);
            assert(more.drop_last() =~= texts(names@).take(i as int));
            assert(more.last() == names@[i as int]@);
        }
        i += 1;
    }
    assert(texts(names@).take(i as int) =~= texts(names@));
    res
}

/// The set of a list that has got one more item.
pub proof fn lemma_push_to_set(names: Seq<Seq<char>>, name: Seq<char>)
    ensures
        names.push(name).to_set() == names.to_set().insert(name),
{
    let more = names.push(name);
    assert forall|t: Seq<char>| names.contains(t) implies more.contains(t) by {
        let k = choose|k: int| 0 <= k < names.len() && names[k] == t;
        assert(more[k] == t);
    }
    assert(more[names.len() as int] == name);
    assert(more.to_set() =~= names.to_set().insert(name));
}

/// A name put at its place into an ascending list that does not hold it.
pub proof fn lemma_insert_at_its_place(names: Seq<Seq<char>>, at: int, name: Seq<char>)
    requires
        ascending(names),
        0 <= at <= names.len(),
        forall|k: int| 0 <= k < at ==> text_less(#[trigger] names[k], name),
        at < names.len() ==> text_less(name, names[at]),
    ensures
        ascending(names.insert(at, name)),
        names.insert(at, name).to_set() == names.to_set().insert(name),
        !names.contains(name),
{
    let after = names.insert(at, name);
    assert forall|k: int| at <= k < names.len() implies text_less(name, #[trigger] names[k]) by {
        if k > at {
            assert(text_less(names[at], names[k]));
            law_text_less_is_a_strict_total_order(name, names[at], names[k]);
        }
    }
    assert forall|a: int, b: int| 0 <= a < b < after.len() implies text_less(
        #[trigger] after[a],
        #[trigger] after[b],
    ) by {
        if b < at {
            assert(text_less(names[a], names[b]));
        } else if b == at {
            assert(text_less(names[a], name));
        } else if a == at {
            assert(text_less(name, names[b - 1]));
        } else if a < at {
            assert(text_less(names[a], names[b - 1]));
        } else {
            assert(text_less(names[a - 1], names[b - 1]));
        }
    }
    assert forall|t: Seq<char>| names.contains(t) implies after.contains(t) by {
        let k = choose|k: int| 0 <= k < names.len() && names[k] == t;
        if k < at {
            assert(after[k] == t);
        } else {
            assert(after[k + 1] == t);
        }
    }
    assert(after[at] == name);
    assert forall|t: Seq<char>| after.contains(t) && t != name implies names.contains(t) by {
        let k = choose|k: int| 0 <= k < after.len() && after[k] == t;
        if k < at {
            assert(names[k] == t);
        } else {
            assert(names[k - 1] == t);
        }
    }
    assert(after.to_set() =~= names.to_set().insert(name));
    if names.contains(name) {
        let k = choose|k: int| 0 <= k < names.len() && names[k] == name;
        law_text_less_is_a_strict_total_order(name, name, name);
        assert(text_less(names[k], name) || text_less(name, names[k]));
    }
}

/// Puts `name` into the strictly ascending list `names`, unless it is there already.
pub fn insert_ascending(names: &mut Vec<String>, name: &String)
    requires
        ascending(texts(old(names)@)),
    ensures
        ascending(texts(final(names)@)),
        texts(final(names)@).to_set() == texts(old(names)@).to_set().insert(name@),
{
    let ghost before = texts(names@);
    let mut i: usize = 0;
    while i < names.len() && str_less(names[i].as_str(), name.as_str())
        invariant
            i <= names@.len(),
            before == texts(names@),
            forall|k: int| 0 <= k < i ==> text_less(#[trigger] before[k], name@),
        decreases names@.len() - i,
    {
        i += 1;
    }
    if i < names.len() && str_same(names[i].as_str(), name.as_str()) {
        proof {
            assert(before[i as int] == name@);
            assert(before.to_set() =~= before.to_set().insert(name@));
        }
        return ;
    }
    names.insert(i, name.clone());
    proof {
        let after = texts(names@);
        assert(after =~= before.insert(i as int, name@));
        if i < before.len() {
            assert(before[i as int] == names@[i + 1]@);
            law_text_less_is_a_strict_total_order(before[i as int], name@, name@);
        }
        lemma_insert_at_its_place(before, i as int, name@);
    }
}

/// White space is what Unicode calls so; among the printable characters of ASCII it is the blank
/// alone.
pub proof fn law_white_space_is_that_of_unicode(c: char)
    ensures
        is_white_space(c) <==> (c == '\t' || c == '\n' || c == '\u{b}' || c == '\u{c}' || c == '\r'
            || c == ' ' || c == '\u{85}' || c == '\u{a0}' || c == '\u{1680}' || ('\u{2000}' <= c
            && c <= '\u{200a}') || c == '\u{2028}' || c == '\u{2029}' || c == '\u{202f}' || c
            == '\u{205f}' || c == '\u{3000}'),
        '!' <= c && c <= '~' ==> !is_white_space(c),
{
}

/// A text is blank exactly when both its parts are, however it is cut in two; a single character
/// is blank exactly when it is white space, and the empty text is blank.
pub proof fn law_blank_by_parts(a: Seq<char>, b: Seq<char>, c: char)
    ensures
        is_blank(a + b) <==> is_blank(a) && is_blank(b),
        is_blank(seq![c]) <==> is_white_space(c),
        is_blank(Seq::<char>::empty()),
{
    let ab = a + b;
    if is_blank(ab) {
        assert forall|i: int| 0 <= i < a.len() implies is_white_space(#[trigger] a[i]) by {
            assert(ab[i] == a[i]);
        }
        assert forall|i: int| 0 <= i < b.len() implies is_white_space(#[trigger] b[i]) by {
            assert(ab[a.len() + i] == b[i]);
        }
    }
    assert(seq![c][0] == c);
}

/// Whatever white space stands around a text that neither begins nor ends with white space,
/// trimming leaves just that text.
pub proof fn law_trimming_finds_the_core(front: Seq<char>, core: Seq<char>, back: Seq<char>)
    requires
        is_blank(front),
        is_blank(back),
        core.len() > 0 ==> !is_white_space(core[0]) && !is_white_space(core[core.len() - 1]),
    ensures
        trimmed(front + core + back) == core,
{
    law_trimmed_ignores_padding(front, core, back);
}

/// The length that counts is that of the UTF-8 encoding, and adds up.
pub proof fn law_byte_len_adds_up(a: Seq<char>, b: Seq<char>)
    ensures
        byte_len(a) == encode_utf8(a).len(),
        byte_len(a + b) == encode_utf8(a).len() + encode_utf8(b).len(),
    decreases a.len(),
{
    if a.len() == 0 {
        assert(a + b =~= b);
    } else {
        assert((a + b).drop_first() =~= a.drop_first() + b);
        law_byte_len_adds_up(a.drop_first(), b);
    }
}

/// The texts of a list of strings are the strings, one by one.
pub proof fn law_texts_are_the_strings(names: Seq<String>)
    ensures
        texts(names).len() == names.len(),
        forall|i: int| 0 <= i < names.len() ==> #[trigger] texts(names)[i] == names[i]@,
{
}

/// The first place at which two encodings differ decides on their order: there the one that comes
/// first has the smaller byte, or has ended.
pub proof fn law_first_difference_decides(a: Seq<char>, b: Seq<char>)
    ensures
        text_less(a, b) <==> exists|i: int|
            #![trigger encode_utf8(b).take(i)]
            {
                &&& 0 <= i < encode_utf8(b).len()
                &&& i <= encode_utf8(a).len()
                &&& encode_utf8(a).take(i) == encode_utf8(b).take(i)
                &&& i < encode_utf8(a).len() ==> encode_utf8(a)[i] < encode_utf8(b)[i]
            },
{
    let x = encode_utf8(a);
    let y = encode_utf8(b);
    if text_less(a, b) {
        let i = lemma_less_has_a_difference(x, y);
        assert(x.take(i) == y.take(i));
    }
    if exists|i: int|
        #![trigger y.take(i)]
        0 <= i < y.len() && i <= x.len() && x.take(i) == y.take(i) && (i < x.len() ==> x[i] < y[i]) {
        let i = choose|i: int|
            #![trigger y.take(i)]
            0 <= i < y.len() && i <= x.len() && x.take(i) == y.take(i) && (i < x.len() ==> x[i]
                < y[i]);
        lemma_difference_decides(x, y, i);
    }
}

proof fn lemma_less_has_a_difference(x: Seq<u8>, y: Seq<u8>) -> (i: int)
    requires
        bytes_less(x, y),
    ensures
        0 <= i < y.len(),
        i <= x.len(),
        x.take(i) == y.take(i),
        i < x.len() ==> x[i] < y[i],
    decreases x.len(),
{
    if x.len() > 0 && x[0] == y[0] {
        let i = lemma_less_has_a_difference(x.drop_first(), y.drop_first());
        assert(x.take(i + 1) =~= seq![x[0]] + x.drop_first().take(i));
        assert(y.take(i + 1) =~= seq![y[0]] + y.drop_first().take(i));
        i + 1
    } else {
        assert(x.take(0) =~= y.take(0));
        0
    }
}

proof fn lemma_difference_decides(x: Seq<u8>, y: Seq<u8>, i: int)
    requires
        0 <= i < y.len(),
        i <= x.len(),
        x.take(i) == y.take(i),
        i < x.len() ==> x[i] < y[i],
    ensures
        bytes_less(x, y),
    decreases x.len(),
{
    if i > 0 {
        assert(x.take(i)[0] == x[0] && y.take(i)[0] == y[0]);
        assert(x.drop_first().take(i - 1) =~= x.take(i).drop_first());
        assert(y.drop_first().take(i - 1) =~= y.take(i).drop_first());
        lemma_difference_decides(x.drop_first(), y.drop_first(), i - 1);
    }
}

/// In an ascending list every name comes before every later one, and none occurs twice.
pub proof fn law_ascending_orders_every_pair(names: Seq<Seq<char>>)
    requires
        ascending(names),
    ensures
        forall|i: int, j: int|
            0 <= i < j < names.len() ==> text_less(#[trigger] names[i], #[trigger] names[j])
                && names[i] != names[j],
{
    assert forall|i: int, j: int| 0 <= i < j < names.len() implies text_less(
        #[trigger] names[i],
        #[trigger] names[j],
    ) && names[i] != names[j] by {
        law_text_less_is_a_strict_total_order(names[i], names[j], names[j]);
    }
}

/// Joining leaves one name as it is, and puts the separator between any two lists that are put one
/// after the other.
pub proof fn law_joining_two_lists(
    a: Seq<Seq<char>>,
    b: Seq<Seq<char>>,
    separator: Seq<char>,
    name: Seq<char>,
)
    ensures
        joined(Seq::<Seq<char>>::empty(), separator) == Seq::<char>::empty(),
        joined(seq![name], separator) == name,
        a.len() > 0 && b.len() > 0 ==> joined(a + b, separator) == joined(a, separator) + separator
            + joined(b, separator),
    decreases b.len(),
{
    if a.len() > 0 && b.len() > 0 {
        let ab = a + b;
        assert(ab.last() == b.last());
        if b.len() == 1 {
            assert(ab.drop_last() =~= a);
        } else {
            assert(ab.drop_last() =~= a + b.drop_last());
            law_joining_two_lists(a, b.drop_last(), separator, name);
            assert(joined(ab, separator) =~= joined(a, separator) + separator + joined(
                b,
                separator,
            ));
        }
    }
}

} // verus!
