//! Text as a sequence of characters: trimming, splitting, searching and joining.

use vstd::prelude::*;

verus! {

/// `String::push` appends the given character to the end of the string.
pub assume_specification[ String::push ](s: &mut String, c: char)
    ensures
        final(s)@ == old(s)@.push(c),
;

/// `char::is_whitespace` tells whether a character has the Unicode property `White_Space`.
pub assume_specification[ char::is_whitespace ](c: char) -> (r: bool)
    ensures
        r == is_white_space(c),
;

/// `char::is_control` tells whether a character is in the Unicode category `Cc`.
pub assume_specification[ char::is_control ](c: char) -> (r: bool)
    ensures
        r == is_control_code(c),
;

/// The text that a sequence of bytes is shown as, with replacement characters in the place of what
/// is no UTF-8.
pub uninterp spec fn lossy_text(bytes: Seq<u8>) -> Seq<char>;

/// `String::from_utf8_lossy` reads bytes as UTF-8; where they are valid UTF-8 the text is the
/// decoded one. How invalid bytes are replaced is not stated, only that the same bytes give the
/// same text.
#[verifier::external_body]
pub(crate) fn from_utf8_lossy(bytes: &Vec<u8>) -> (r: String)
    ensures
        r@ == lossy_text(bytes@),
        vstd::utf8::valid_utf8(bytes@) ==> r@ == vstd::utf8::decode_utf8(bytes@),
{
    String::from_utf8_lossy(bytes.as_slice()).to_string()
}

/// The Unicode property `White_Space`.
pub open spec fn is_white_space(c: char) -> bool {
    ||| '\u{9}' <= c <= '\u{d}'
    ||| c == '\u{20}'
    ||| c == '\u{85}'
    ||| c == '\u{a0}'
    ||| c == '\u{1680}'
    ||| '\u{2000}' <= c <= '\u{200a}'
    ||| c == '\u{2028}'
    ||| c == '\u{2029}'
    ||| c == '\u{202f}'
    ||| c == '\u{205f}'
    ||| c == '\u{3000}'
}

/// The Unicode category `Cc`.
pub open spec fn is_control_code(c: char) -> bool {
    c <= '\u{1f}' || '\u{7f}' <= c <= '\u{9f}'
}

pub open spec fn is_digit(c: char) -> bool {
    '0' <= c <= '9'
}

pub open spec fn is_ascii_letter_or_digit(c: char) -> bool {
    is_digit(c) || 'a' <= c <= 'z' || 'A' <= c <= 'Z'
}

/// The characters at which a text is trimmed or split.
#[derive(Clone, Copy)]
pub enum CharClass {
    WhiteSpace,
    Exactly(char),
}

impl CharClass {
    pub open spec fn has(self, c: char) -> bool {
        match self {
            CharClass::WhiteSpace => is_white_space(c),
            CharClass::Exactly(d) => c == d,
        }
    }

    fn holds(self, c: char) -> (r: bool)
        ensures
            r == self.has(c),
    {
        match self {
            CharClass::WhiteSpace => c.is_whitespace(),
            CharClass::Exactly(d) => c == d,
        }
    }
}

/// The texts of a sequence of strings.
pub open spec fn texts(v: Seq<String>) -> Seq<Seq<char>> {
    v.map_values(|s: String| s@)
}

/// The text of an optional string.
pub open spec fn opt_text(o: Option<String>) -> Option<Seq<char>> {
    match o {
        Some(s) => Some(s@),
        None => None,
    }
}

/// The text of an optional string slice.
pub open spec fn opt_str(o: Option<&str>) -> Option<Seq<char>> {
    match o {
        Some(s) => Some(s@),
        None => None,
    }
}

/// `s` without its longest prefix of characters of the class.
pub open spec fn trim_start_by(s: Seq<char>, k: CharClass) -> Seq<char>
    decreases s.len(),
{
    if s.len() > 0 && k.has(s[0]) {
        trim_start_by(s.drop_first(), k)
    } else {
        s
    }
}

/// `s` without its longest suffix of characters of the class.
pub open spec fn trim_end_by(s: Seq<char>, k: CharClass) -> Seq<char>
    decreases s.len(),
{
    if s.len() > 0 && k.has(s.last()) {
        trim_end_by(s.drop_last(), k)
    } else {
        s
    }
}

/// `s` without characters of the class at either end.
pub open spec fn trim_by(s: Seq<char>, k: CharClass) -> Seq<char> {
    trim_end_by(trim_start_by(s, k), k)
}

/// `s` without white space at either end.
pub open spec fn trimmed(s: Seq<char>) -> Seq<char> {
    trim_by(s, CharClass::WhiteSpace)
}

/// `pat` stands in `s` at position `i`.
pub open spec fn text_at(s: Seq<char>, pat: Seq<char>, i: int) -> bool {
    0 <= i && i + pat.len() <= s.len() && s.subrange(i, i + pat.len()) == pat
}

/// `pat` stands somewhere in `s`.
pub open spec fn has_text(s: Seq<char>, pat: Seq<char>) -> bool {
    exists|i: int| #[trigger] text_at(s, pat, i)
}

pub open spec fn begins_with(s: Seq<char>, pat: Seq<char>) -> bool {
    text_at(s, pat, 0)
}

pub open spec fn finishes_with(s: Seq<char>, pat: Seq<char>) -> bool {
    text_at(s, pat, s.len() - pat.len())
}

/// `s` without all the copies of `pat` that it begins with.
pub open spec fn strip_repeated(s: Seq<char>, pat: Seq<char>) -> Seq<char>
    decreases s.len(),
{
    if pat.len() > 0 && begins_with(s, pat) {
        strip_repeated(s.skip(pat.len() as int), pat)
    } else {
        s
    }
}

/// The first position at or after `from` at which `pat` stands in `s`.
pub open spec fn first_at(s: Seq<char>, pat: Seq<char>, from: int) -> Option<int>
    decreases s.len() - from + 1,
{
    if from + pat.len() > s.len() {
        None
    } else if text_at(s, pat, from) {
        Some(from)
    } else {
        first_at(s, pat, from + 1)
    }
}

/// The pieces of `s` between the characters of the class.
pub open spec fn split_by(s: Seq<char>, k: CharClass) -> Seq<Seq<char>>
    decreases s.len(),
{
    if s.len() == 0 {
        seq![Seq::<char>::empty()]
    } else {
        let before = split_by(s.drop_last(), k);
        if k.has(s.last()) {
            before.push(Seq::<char>::empty())
        } else {
            before.drop_last().push(before.last().push(s.last()))
        }
    }
}

/// The pieces of `s` between the occurrences of `pat`, taken from the left.
pub open spec fn split_text(s: Seq<char>, pat: Seq<char>) -> Seq<Seq<char>>
    decreases s.len(),
{
    match first_at(s, pat, 0) {
        Some(i) => if 0 <= i && 0 < pat.len() && i + pat.len() <= s.len() {
            seq![s.take(i)] + split_text(s.skip(i + pat.len()), pat)
        } else {
            seq![s]
        },
        None => seq![s],
    }
}

/// The maximal runs of characters that are not white space.
pub open spec fn words(s: Seq<char>) -> Seq<Seq<char>> {
    split_by(s, CharClass::WhiteSpace).filter(|w: Seq<char>| w.len() > 0)
}

/// The parts, one after another, with `sep` between each two of them.
pub open spec fn join(parts: Seq<Seq<char>>, sep: Seq<char>) -> Seq<char>
    decreases parts.len(),
{
    if parts.len() == 0 {
        Seq::empty()
    } else if parts.len() == 1 {
        parts[0]
    } else {
        join(parts.drop_last(), sep) + sep + parts.last()
    }
}

/// The ASCII letters `a` to `z` in upper case, any other character as it is.
pub open spec fn upper_char(c: char) -> char {
    if 'a' <= c <= 'z' {
        (c as u32 - 32) as char
    } else {
        c
    }
}

/// The ASCII letters `A` to `Z` in lower case, any other character as it is.
pub open spec fn lower_char(c: char) -> char {
    if 'A' <= c <= 'Z' {
        (c as u32 + 32) as char
    } else {
        c
    }
}

pub open spec fn ascii_upper(s: Seq<char>) -> Seq<char> {
    s.map_values(|c: char| upper_char(c))
}

pub open spec fn ascii_lower(s: Seq<char>) -> Seq<char> {
    s.map_values(|c: char| lower_char(c))
}

/// `s` with every `old_char` replaced by `new_char`.
pub open spec fn replaced(s: Seq<char>, old_char: char, new_char: char) -> Seq<char> {
    s.map_values(
        |c: char|
            if c == old_char {
                new_char
            } else {
                c
            },
    )
}

/// The first `n` characters of `s`, or all of them where there are fewer.
pub open spec fn take_at_most(s: Seq<char>, n: nat) -> Seq<char> {
    if s.len() <= n {
        s
    } else {
        s.take(n as int)
    }
}

// Executable counterparts.

/// The characters of a text.
pub fn chars_of(s: &str) -> (r: Vec<char>)
    ensures
        r@ == s@,
{
    let mut v: Vec<char> = Vec::new();
    for c in it: s.chars()
        invariant
            v@ == it.seq().take(it.index() as int),
            it.seq() == s@,
    {
        v.push(c);
    }
    assert(s@.take(s@.len() as int) == s@);
    v
}

/// The text made of `v[from..to]`.
pub fn text_of(v: &Vec<char>, from: usize, to: usize) -> (r: String)
    requires
        from <= to <= v.len(),
    ensures
        r@ == v@.subrange(from as int, to as int),
{
    let mut s = String::new();
    let mut i: usize = from;
    while i < to
        invariant
            from <= i <= to <= v.len(),
            s@ == v@.subrange(from as int, i as int),
        decreases to - i,
    {
        s.push(v[i]);
        i += 1;
        assert(v@.subrange(from as int, i as int) == v@.subrange(from as int, i - 1).push(
            v@[i - 1],
        ));
    }
    s
}

pub fn same_text(a: &str, b: &str) -> (r: bool)
    ensures
        r == (a@ == b@),
{
    a.to_string() == b.to_string()
}

/// `a` followed by `b`.
pub fn concat2(a: &str, b: &str) -> (r: String)
    ensures
        r@ == a@ + b@,
{
    let mut s = a.to_string();
    s.append(b);
    s
}

/// `a`, `b` and `c`, one after another.
pub fn concat3(a: &str, b: &str, c: &str) -> (r: String)
    ensures
        r@ == a@ + b@ + c@,
{
    let mut s = concat2(a, b);
    s.append(c);
    s
}

/// `a`, `b`, `c` and `d`, one after another.
pub fn concat4(a: &str, b: &str, c: &str, d: &str) -> (r: String)
    ensures
        r@ == a@ + b@ + c@ + d@,
{
    let mut s = concat3(a, b, c);
    s.append(d);
    s
}

/// Appends a copy of `s` to the list.
pub fn push_text(v: &mut Vec<String>, s: &str)
    ensures
        texts(final(v)@) == texts(old(v)@).push(s@),
        final(v)@.len() == old(v)@.len() + 1,
{
    v.push(s.to_string());
    assert(texts(v@) == texts(old(v)@).push(s@));
}

/// A copy of the list.
pub fn copy_texts(v: &Vec<String>) -> (r: Vec<String>)
    ensures
        texts(r@) == texts(v@),
{
    let mut out: Vec<String> = Vec::new();
    let mut i: usize = 0;
    while i < v.len()
        invariant
            i <= v.len(),
            texts(out@) == texts(v@).take(i as int),
        decreases v.len() - i,
    {
        push_text(&mut out, v[i].as_str());
        i += 1;
        assert(texts(v@).take(i as int) == texts(v@).take(i - 1).push(v@[i - 1]@));
    }
    assert(texts(v@).take(v@.len() as int) == texts(v@));
    out
}

/// The optional string as an optional slice.
pub fn as_opt_str(o: &Option<String>) -> (r: Option<&str>)
    ensures
        opt_str(r) == opt_text(*o),
        r is Some == *o is Some,
{
    match o {
        Some(s) => Some(s.as_str()),
        None => None,
    }
}

/// A copy of the optional string.
pub fn copy_opt(o: &Option<String>) -> (r: Option<String>)
    ensures
        opt_text(r) == opt_text(*o),
{
    match o {
        Some(s) => Some(s.clone()),
        None => None,
    }
}

proof fn lemma_trim_start_step(s: Seq<char>, k: CharClass, i: int)
    requires
        0 <= i < s.len(),
        k.has(s[i]),
    ensures
        trim_start_by(s.skip(i), k) == trim_start_by(s.skip(i + 1), k),
{
    assert(s.skip(i)[0] == s[i]);
    assert(s.skip(i).drop_first() == s.skip(i + 1));
}

proof fn lemma_trim_end_step(s: Seq<char>, k: CharClass, j: int)
    requires
        0 < j <= s.len(),
        k.has(s[j - 1]),
    ensures
        trim_end_by(s.take(j), k) == trim_end_by(s.take(j - 1), k),
{
    assert(s.take(j).last() == s[j - 1]);
    assert(s.take(j).drop_last() == s.take(j - 1));
}

/// A text trimmed at its start is the end of the text, and does not begin with the class.
pub proof fn lemma_trim_start(s: Seq<char>, k: CharClass)
    ensures
        ({
            let t = trim_start_by(s, k);
            &&& t.len() <= s.len()
            &&& t == s.skip(s.len() - t.len())
            &&& t.len() > 0 ==> !k.has(t[0])
        }),
    decreases s.len(),
{
    if s.len() > 0 && k.has(s[0]) {
        lemma_trim_start(s.drop_first(), k);
        let t = trim_start_by(s, k);
        assert(s.drop_first().skip(s.len() - 1 - t.len()) =~= s.skip(s.len() - t.len()));
    } else {
        assert(s.skip(0) =~= s);
    }
}

proof fn lemma_trim_end(s: Seq<char>, k: CharClass)
    ensures
        ({
            let t = trim_end_by(s, k);
            &&& t.len() <= s.len()
            &&& t == s.take(t.len() as int)
            &&& t.len() > 0 ==> !k.has(t.last())
        }),
    decreases s.len(),
{
    if s.len() > 0 && k.has(s.last()) {
        lemma_trim_end(s.drop_last(), k);
        let t = trim_end_by(s, k);
        assert(s.drop_last().take(t.len() as int) =~= s.take(t.len() as int));
    } else {
        assert(s.take(s.len() as int) =~= s);
    }
}

/// A trimmed text is a part of the text, and neither end of it is in the class.
pub proof fn lemma_trim_by(s: Seq<char>, k: CharClass) -> (from: int)
    ensures
        ({
            let t = trim_by(s, k);
            &&& 0 <= from
            &&& from + t.len() <= s.len()
            &&& t == s.subrange(from, from + t.len())
            &&& t.len() > 0 ==> !k.has(t[0]) && !k.has(t.last())
        }),
{
    let a = trim_start_by(s, k);
    let t = trim_by(s, k);
    lemma_trim_start(s, k);
    lemma_trim_end(a, k);
    let from = s.len() - a.len();
    assert(t =~= s.subrange(from, from + t.len()));
    from
}

/// A text whose ends are not in the class stays as it is when it is trimmed.
pub proof fn lemma_trim_fixed(s: Seq<char>, k: CharClass)
    requires
        s.len() > 0 ==> !k.has(s[0]) && !k.has(s.last()),
    ensures
        trim_by(s, k) == s,
{
}

/// The text without characters of the class at its start.
pub fn trim_start(s: &str, k: CharClass) -> (r: String)
    ensures
        r@ == trim_start_by(s@, k),
{
    let v = chars_of(s);
    let mut i: usize = 0;
    assert(v@.skip(0) == v@);
    while i < v.len() && k.holds(v[i])
        invariant
            i <= v.len(),
            trim_start_by(v@.skip(i as int), k) == trim_start_by(v@, k),
        decreases v.len() - i,
    {
        proof {
            lemma_trim_start_step(v@, k, i as int);
        }
        i += 1;
    }
    proof {
        if i < v.len() {
            assert(v@.skip(i as int)[0] == v@[i as int]);
        }
        assert(v@.skip(i as int) == v@.subrange(i as int, v@.len() as int));
    }
    text_of(&v, i, v.len())
}

/// The text without characters of the class at its end.
pub fn trim_end(s: &str, k: CharClass) -> (r: String)
    ensures
        r@ == trim_end_by(s@, k),
{
    let v = chars_of(s);
    let mut j: usize = v.len();
    assert(v@.take(v@.len() as int) == v@);
    while j > 0 && k.holds(v[j - 1])
        invariant
            j <= v.len(),
            trim_end_by(v@.take(j as int), k) == trim_end_by(v@, k),
        decreases j,
    {
        proof {
            lemma_trim_end_step(v@, k, j as int);
        }
        j -= 1;
    }
    proof {
        if j > 0 {
            assert(v@.take(j as int).last() == v@[j - 1]);
        }
        assert(v@.take(j as int) == v@.subrange(0, j as int));
    }
    text_of(&v, 0, j)
}

/// The text without characters of the class at either end.
pub fn trim_both(s: &str, k: CharClass) -> (r: String)
    ensures
        r@ == trim_by(s@, k),
{
    trim_end(trim_start(s, k).as_str(), k)
}

/// The text without white space at either end.
pub fn trim(s: &str) -> (r: String)
    ensures
        r@ == trimmed(s@),
{
    trim_both(s, CharClass::WhiteSpace)
}

fn stands_at(v: &Vec<char>, p: &Vec<char>, i: usize) -> (r: bool)
    requires
        i + p.len() <= v.len(),
    ensures
        r == text_at(v@, p@, i as int),
{
    let mut j: usize = 0;
    while j < p.len()
        invariant
            j <= p.len(),
            i + p.len() <= v.len(),
            forall|m: int| 0 <= m < j ==> v@[i + m] == p@[m],
        decreases p.len() - j,
    {
        if v[i + j] != p[j] {
            assert(v@.subrange(i as int, i + p@.len())[j as int] == v@[i + j]);
            return false;
        }
        j += 1;
    }
    assert(v@.subrange(i as int, i + p@.len()) =~= p@);
    true
}

fn find_in(v: &Vec<char>, p: &Vec<char>, from: usize) -> (r: Option<usize>)
    requires
        from <= v.len(),
    ensures
        match r {
            Some(i) => first_at(v@, p@, from as int) == Some(i as int) && from <= i && i + p.len()
                <= v.len(),
            None => first_at(v@, p@, from as int) is None,
        },
{
    let mut i: usize = from;
    while i <= v.len() && p.len() <= v.len() - i
        invariant
            from <= i <= v.len(),
            first_at(v@, p@, i as int) == first_at(v@, p@, from as int),
        decreases v.len() - i + 1,
    {
        if stands_at(v, p, i) {
            return Some(i);
        }
        if i == v.len() {
            assert(p@ =~= v@.subrange(i as int, i + p@.len()));
            return None;
        }
        i += 1;
    }
    None
}

proof fn lemma_first_at(s: Seq<char>, pat: Seq<char>, from: int)
    requires
        0 <= from,
    ensures
        match first_at(s, pat, from) {
            Some(i) => from <= i && text_at(s, pat, i) && forall|j: int|
                from <= j < i ==> !#[trigger] text_at(s, pat, j),
            None => forall|j: int| from <= j ==> !#[trigger] text_at(s, pat, j),
        },
    decreases s.len() - from + 1,
{
    if from + pat.len() > s.len() {
    } else if text_at(s, pat, from) {
    } else {
        lemma_first_at(s, pat, from + 1);
    }
}

/// `pat` stands in `s`.
pub fn contains(s: &str, pat: &str) -> (r: bool)
    ensures
        r == has_text(s@, pat@),
{
    let v = chars_of(s);
    let p = chars_of(pat);
    proof {
        lemma_first_at(s@, pat@, 0);
    }
    find_in(&v, &p, 0).is_some()
}

/// `s` begins with `pat`.
pub fn starts_with(s: &str, pat: &str) -> (r: bool)
    ensures
        r == begins_with(s@, pat@),
{
    let v = chars_of(s);
    let p = chars_of(pat);
    p.len() <= v.len() && stands_at(&v, &p, 0)
}

/// `s` ends with `pat`.
pub fn ends_with(s: &str, pat: &str) -> (r: bool)
    ensures
        r == finishes_with(s@, pat@),
{
    let v = chars_of(s);
    let p = chars_of(pat);
    p.len() <= v.len() && stands_at(&v, &p, v.len() - p.len())
}

/// `s` holds the character `c`.
pub fn contains_char(s: &str, c: char) -> (r: bool)
    ensures
        r == s@.contains(c),
{
    let v = chars_of(s);
    let mut i: usize = 0;
    while i < v.len()
        invariant
            i <= v.len(),
            v@ == s@,
            forall|j: int| 0 <= j < i ==> v@[j] != c,
        decreases v.len() - i,
    {
        if v[i] == c {
            assert(s@[i as int] == c);
            return true;
        }
        i += 1;
    }
    false
}

/// The text without the copies of `pat` that it begins with.
pub fn strip_start(s: &str, pat: &str) -> (r: String)
    ensures
        r@ == strip_repeated(s@, pat@),
{
    let v = chars_of(s);
    let p = chars_of(pat);
    let mut i: usize = 0;
    assert(v@.skip(0) == v@);
    if p.len() == 0 {
        return s.to_string();
    }
    while p.len() <= v.len() - i && stands_at(&v, &p, i)
        invariant
            i <= v.len(),
            0 < p.len(),
            strip_repeated(v@.skip(i as int), p@) == strip_repeated(v@, p@),
        decreases v.len() - i,
    {
        proof {
            assert(v@.skip(i as int).subrange(0, p@.len() as int) == v@.subrange(
                i as int,
                i + p@.len(),
            ));
            assert(v@.skip(i as int).skip(p@.len() as int) == v@.skip(i + p@.len()));
        }
        i += p.len();
    }
    proof {
        if i + p@.len() <= v@.len() {
            assert(v@.skip(i as int).subrange(0, p@.len() as int) == v@.subrange(
                i as int,
                i + p@.len(),
            ));
        }
        assert(v@.skip(i as int) == v@.subrange(i as int, v@.len() as int));
    }
    text_of(&v, i, v.len())
}

pub proof fn lemma_split_by_nonempty(s: Seq<char>, k: CharClass)
    ensures
        split_by(s, k).len() >= 1,
    decreases s.len(),
{
    if s.len() > 0 {
        lemma_split_by_nonempty(s.drop_last(), k);
    }
}

/// A text without characters of the class is one piece.
pub proof fn lemma_split_single(s: Seq<char>, k: CharClass)
    requires
        forall|i: int| 0 <= i < s.len() ==> !k.has(#[trigger] s[i]),
    ensures
        split_by(s, k) == seq![s],
    decreases s.len(),
{
    if s.len() > 0 {
        lemma_split_single(s.drop_last(), k);
        assert(s.drop_last().push(s.last()) == s);
        assert(split_by(s, k) =~= seq![s]);
    } else {
        assert(s == Seq::<char>::empty());
    }
}

/// The pieces of two texts with a character of the class between them are the pieces of the first
/// and the pieces of the second.
pub proof fn lemma_split_concat(a: Seq<char>, sep: char, b: Seq<char>, k: CharClass)
    requires
        k.has(sep),
    ensures
        split_by(a + seq![sep] + b, k) == split_by(a, k) + split_by(b, k),
    decreases b.len(),
{
    lemma_split_by_nonempty(b, k);
    let whole = a + seq![sep] + b;
    if b.len() == 0 {
        assert(whole.drop_last() == a);
        assert(split_by(whole, k) =~= split_by(a, k) + split_by(b, k));
    } else {
        lemma_split_concat(a, sep, b.drop_last(), k);
        lemma_split_by_nonempty(b.drop_last(), k);
        assert(whole.drop_last() == a + seq![sep] + b.drop_last());
        assert(whole.last() == b.last());
        assert(split_by(whole, k) =~= split_by(a, k) + split_by(b, k));
    }
}

/// The pieces of the text between the characters of the class.
pub fn split(s: &str, k: CharClass) -> (r: Vec<String>)
    ensures
        texts(r@) == split_by(s@, k),
        r@.len() >= 1,
{
    let v = chars_of(s);
    let mut done: Vec<String> = Vec::new();
    let mut cur = String::new();
    let mut i: usize = 0;
    assert(texts(done@).push(cur@) == split_by(v@.take(0), k));
    while i < v.len()
        invariant
            i <= v.len(),
            texts(done@).push(cur@) == split_by(v@.take(i as int), k),
        decreases v.len() - i,
    {
        let ghost before = texts(done@).push(cur@);
        assert(v@.take(i + 1).drop_last() == v@.take(i as int));
        assert(v@.take(i + 1).last() == v@[i as int]);
        if k.holds(v[i]) {
            push_text(&mut done, cur.as_str());
            cur = String::new();
            assert(texts(done@).push(cur@) == before.push(Seq::<char>::empty()));
        } else {
            cur.push(v[i]);
            assert(before.drop_last() == texts(done@));
            assert(texts(done@).push(cur@) == before.drop_last().push(
                before.last().push(v@[i as int]),
            ));
        }
        i += 1;
    }
    assert(v@.take(v@.len() as int) == v@);
    push_text(&mut done, cur.as_str());
    done
}

/// The maximal runs of characters that are not white space.
pub fn split_whitespace(s: &str) -> (r: Vec<String>)
    ensures
        texts(r@) == words(s@),
{
    let pieces = split(s, CharClass::WhiteSpace);
    let mut out: Vec<String> = Vec::new();
    let mut i: usize = 0;
    let ghost all = texts(pieces@);
    let ghost keep = |w: Seq<char>| w.len() > 0;
    proof {
        reveal(Seq::filter);
        assert(texts(out@) == all.take(0).filter(keep));
    }
    while i < pieces.len()
        invariant
            i <= pieces.len(),
            all == texts(pieces@),
            keep == (|w: Seq<char>| w.len() > 0),
            texts(out@) == all.take(i as int).filter(keep),
        decreases pieces.len() - i,
    {
        proof {
            reveal(Seq::filter);
            assert(all.take(i + 1).drop_last() == all.take(i as int));
            assert(all.take(i + 1).last() == pieces@[i as int]@);
        }
        if !pieces[i].as_str().is_empty() {
            push_text(&mut out, pieces[i].as_str());
        }
        i += 1;
    }
    assert(all.take(all.len() as int) == all);
    out
}

/// The parts with `sep` between each two of them.
pub fn join_with(parts: &Vec<String>, sep: &str) -> (r: String)
    ensures
        r@ == join(texts(parts@), sep@),
{
    let mut out = String::new();
    let mut i: usize = 0;
    let ghost all = texts(parts@);
    while i < parts.len()
        invariant
            i <= parts.len(),
            all == texts(parts@),
            out@ == join(all.take(i as int), sep@),
        decreases parts.len() - i,
    {
        proof {
            assert(all.take(i + 1).drop_last() == all.take(i as int));
            assert(all.take(i + 1).last() == parts@[i as int]@);
            assert(Seq::<char>::empty() + parts@[i as int]@ == parts@[i as int]@);
        }
        if i > 0 {
            out.append(sep);
        }
        out.append(parts[i].as_str());
        i += 1;
    }
    assert(all.take(all.len() as int) == all);
    out
}

/// The pieces of the text between the occurrences of `pat`.
pub fn split_on(s: &str, pat: &str) -> (r: Vec<String>)
    requires
        pat@.len() > 0,
    ensures
        texts(r@) == split_text(s@, pat@),
{
    let v = chars_of(s);
    let p = chars_of(pat);
    let mut out: Vec<String> = Vec::new();
    let mut from: usize = 0;
    assert(v@.skip(0) == v@);
    assert(texts(out@) == Seq::<Seq<char>>::empty());
    assert(Seq::<Seq<char>>::empty() + split_text(v@, p@) == split_text(v@, p@));
    loop
        invariant
            from <= v.len(),
            p@.len() > 0,
            v@ == s@,
            p@ == pat@,
            texts(out@) + split_text(v@.skip(from as int), p@) == split_text(v@, p@),
        decreases v.len() - from,
    {
        let ghost rest = v@.skip(from as int);
        proof {
            lemma_first_at_shift(v@, p@, from as int, from as int);
        }
        match find_in(&v, &p, from) {
            Some(i) => {
                let piece = text_of(&v, from, i);
                let ghost before = texts(out@);
                push_text(&mut out, piece.as_str());
                proof {
                    assert(first_at(rest, p@, 0) == Some(i - from));
                    assert(rest.take(i - from) == piece@);
                    assert(rest.skip(i - from + p@.len()) == v@.skip(i + p@.len()));
                    assert(before + (seq![piece@] + split_text(v@.skip(i + p@.len()), p@))
                        == before.push(piece@) + split_text(v@.skip(i + p@.len()), p@));
                }
                from = i + p.len();
            },
            None => {
                let piece = text_of(&v, from, v.len());
                let ghost before = texts(out@);
                push_text(&mut out, piece.as_str());
                proof {
                    assert(piece@ == rest);
                    assert(before + seq![rest] == before.push(rest));
                }
                return out;
            },
        }
    }
}

proof fn lemma_first_at_shift(s: Seq<char>, pat: Seq<char>, off: int, from: int)
    requires
        0 <= off <= from,
        off <= s.len(),
    ensures
        first_at(s.skip(off), pat, from - off) == match first_at(s, pat, from) {
            Some(i) => Some(i - off),
            None => None,
        },
    decreases s.len() - from + 1,
{
    if from + pat.len() > s.len() {
    } else {
        assert(s.skip(off).subrange(from - off, from - off + pat.len()) == s.subrange(
            from,
            from + pat.len(),
        ));
        if !text_at(s, pat, from) {
            lemma_first_at_shift(s, pat, off, from + 1);
        }
    }
}

/// The text with its ASCII letters in upper case.
pub fn to_ascii_upper(s: &str) -> (r: String)
    ensures
        r@ == ascii_upper(s@),
{
    let v = chars_of(s);
    let mut out = String::new();
    let mut i: usize = 0;
    while i < v.len()
        invariant
            i <= v.len(),
            out@ == ascii_upper(v@.take(i as int)),
        decreases v.len() - i,
    {
        let c = v[i];
        if 'a' <= c && c <= 'z' {
            out.push((c as u8 - 32) as char);
        } else {
            out.push(c);
        }
        i += 1;
        assert(v@.take(i as int) == v@.take(i - 1).push(c));
    }
    assert(v@.take(v@.len() as int) == v@);
    out
}

/// The text with its ASCII letters in lower case.
pub fn to_ascii_lower(s: &str) -> (r: String)
    ensures
        r@ == ascii_lower(s@),
{
    let v = chars_of(s);
    let mut out = String::new();
    let mut i: usize = 0;
    while i < v.len()
        invariant
            i <= v.len(),
            out@ == ascii_lower(v@.take(i as int)),
        decreases v.len() - i,
    {
        let c = v[i];
        if 'A' <= c && c <= 'Z' {
            out.push((c as u8 + 32) as char);
        } else {
            out.push(c);
        }
        i += 1;
        assert(v@.take(i as int) == v@.take(i - 1).push(c));
    }
    assert(v@.take(v@.len() as int) == v@);
    out
}

/// The text with every `old_char` replaced by `new_char`.
pub fn replace_char(s: &str, old_char: char, new_char: char) -> (r: String)
    ensures
        r@ == replaced(s@, old_char, new_char),
{
    let v = chars_of(s);
    let mut out = String::new();
    let mut i: usize = 0;
    while i < v.len()
        invariant
            i <= v.len(),
            out@ == replaced(v@.take(i as int), old_char, new_char),
        decreases v.len() - i,
    {
        let c = v[i];
        if c == old_char {
            out.push(new_char);
        } else {
            out.push(c);
        }
        i += 1;
        assert(v@.take(i as int) == v@.take(i - 1).push(c));
    }
    assert(v@.take(v@.len() as int) == v@);
    out
}

/// The first `n` characters of the text.
pub fn take_chars(s: &str, n: usize) -> (r: String)
    ensures
        r@ == take_at_most(s@, n as nat),
{
    let v = chars_of(s);
    let end: usize = if v.len() <= n {
        v.len()
    } else {
        n
    };
    assert(v@.subrange(0, end as int) =~= take_at_most(s@, n as nat));
    text_of(&v, 0, end)
}

proof fn lemma_trim_start_of(a: Seq<char>, rest: Seq<char>, k: CharClass)
    requires
        forall|i: int| 0 <= i < a.len() ==> k.has(#[trigger] a[i]),
    ensures
        trim_start_by(a + rest, k) == trim_start_by(rest, k),
    decreases a.len(),
{
    if a.len() > 0 {
        let b = a.drop_first();
        assert forall|i: int| 0 <= i < b.len() implies k.has(#[trigger] b[i]) by {
            assert(b[i] == a[i + 1]);
        }
        lemma_trim_start_of(b, rest, k);
        assert(k.has(a[0]));
        assert((a + rest)[0] == a[0]);
        assert((a + rest).drop_first() =~= b + rest);
    } else {
        assert(a + rest =~= rest);
    }
}

proof fn lemma_trim_end_of(rest: Seq<char>, b: Seq<char>, k: CharClass)
    requires
        forall|i: int| 0 <= i < b.len() ==> k.has(#[trigger] b[i]),
    ensures
        trim_end_by(rest + b, k) == trim_end_by(rest, k),
    decreases b.len(),
{
    if b.len() > 0 {
        let a = b.drop_last();
        assert forall|i: int| 0 <= i < a.len() implies k.has(#[trigger] a[i]) by {
            assert(a[i] == b[i]);
        }
        lemma_trim_end_of(rest, a, k);
        assert(k.has(b[b.len() - 1]));
        assert((rest + b).last() == b.last());
        assert((rest + b).drop_last() =~= rest + a);
    } else {
        assert(rest + b =~= rest);
    }
}

/// Trimming takes away what is in the class at the ends and nothing else.
pub proof fn trimming_takes_only_the_ends(
    a: Seq<char>,
    core: Seq<char>,
    b: Seq<char>,
    k: CharClass,
)
    requires
        forall|i: int| 0 <= i < a.len() ==> k.has(#[trigger] a[i]),
        forall|i: int| 0 <= i < b.len() ==> k.has(#[trigger] b[i]),
        core.len() > 0 ==> !k.has(core[0]) && !k.has(core.last()),
    ensures
        trim_by(a + core + b, k) == core,
{
    assert(a + core + b =~= a + (core + b));
    lemma_trim_start_of(a, core + b, k);
    if core.len() > 0 {
        assert((core + b)[0] == core[0]);
        assert(trim_start_by(core + b, k) == core + b);
        lemma_trim_end_of(core, b, k);
    } else {
        let none = Seq::<char>::empty();
        assert(core + b =~= b + none);
        lemma_trim_start_of(b, none, k);
        assert(core =~= none);
    }
}

/// A text is blank, so that nothing is left of it when it is trimmed, exactly where all of it is
/// white space.
pub proof fn blank_is_all_white_space(s: Seq<char>)
    ensures
        trimmed(s).len() == 0 <==> forall|i: int| 0 <= i < s.len() ==> is_white_space(
            #[trigger] s[i],
        ),
{
    let k = CharClass::WhiteSpace;
    if forall|i: int| 0 <= i < s.len() ==> is_white_space(#[trigger] s[i]) {
        let none = Seq::<char>::empty();
        assert forall|i: int| 0 <= i < s.len() implies k.has(#[trigger] s[i]) by {}
        trimming_takes_only_the_ends(s, none, none, k);
        assert(s + none + none =~= s);
    } else {
        let i = choose|i: int| 0 <= i < s.len() && !is_white_space(#[trigger] s[i]);
        lemma_trim_keeps(s, i);
    }
}

proof fn lemma_trim_keeps(s: Seq<char>, i: int)
    requires
        0 <= i < s.len(),
        !is_white_space(s[i]),
    ensures
        trimmed(s).len() > 0,
{
    let k = CharClass::WhiteSpace;
    let a = trim_start_by(s, k);
    lemma_start_keeps(s, i, k);
    let j = i - (s.len() - a.len());
    lemma_trim_start(s, k);
    assert(a[j] == s[i]);
    lemma_end_keeps(a, j, k);
}

proof fn lemma_start_keeps(s: Seq<char>, i: int, k: CharClass)
    requires
        0 <= i < s.len(),
        !k.has(s[i]),
    ensures
        trim_start_by(s, k).len() >= s.len() - i,
    decreases s.len(),
{
    if k.has(s[0]) {
        assert(s.drop_first()[i - 1] == s[i]);
        lemma_start_keeps(s.drop_first(), i - 1, k);
    }
}

proof fn lemma_end_keeps(s: Seq<char>, i: int, k: CharClass)
    requires
        0 <= i < s.len(),
        !k.has(s[i]),
    ensures
        trim_end_by(s, k).len() > i,
    decreases s.len(),
{
    if k.has(s.last()) {
        assert(s.drop_last()[i] == s[i]);
        lemma_end_keeps(s.drop_last(), i, k);
    }
}

/// Case is changed for the 26 letters of ASCII and for nothing else, each way undoing the other for
/// the letters that it has changed.
pub proof fn case_is_that_of_ascii_letters(c: char)
    ensures
        'A' <= c <= 'Z' ==> lower_char(c) as u32 == c as u32 + 32 && upper_char(lower_char(c)) == c,
        'a' <= c <= 'z' ==> upper_char(c) as u32 == c as u32 - 32 && lower_char(upper_char(c)) == c,
        !('A' <= c <= 'Z') ==> lower_char(c) == c,
        !('a' <= c <= 'z') ==> upper_char(c) == c,
{
}

} // verus!
