//! Small string helpers shared by the other modules: moving between strings
//! and character vectors, and comparing character sequences.
use vstd::prelude::*;

verus! {

/// Appends one character to a string.
///
/// Calls `String::push`; trusted to extend the string's characters by exactly
/// `c` at the end, as the standard library documents.
#[verifier::external_body]
pub(crate) fn push_char(s: &mut String, c: char)
    ensures
        final(s)@ == old(s)@.push(c),
{
    s.push(c)
}

/// The lower-case form of a text.
pub uninterp spec fn lowercase(text: Seq<char>) -> Seq<char>;

/// The lower-case form of `s`.
///
/// Calls `str::to_lowercase`; the result is named by `lowercase`. Nothing is
/// claimed about what the lower-case form of a given text is.
#[verifier::external_body]
pub(crate) fn to_lowercase(s: &str) -> (r: String)
    ensures
        r@ == lowercase(s@),
{
    s.to_lowercase()
}

/// The characters of `s`, in order.
pub fn to_chars(s: &str) -> (v: Vec<char>)
    ensures
        v@ == s@,
{
    let mut v: Vec<char> = Vec::new();
    for c in it: s.chars()
        invariant
            v@ == s@.take(it.index() as int),
            it.seq() == s@,
    {
        v.push(c);
    }
    v
}

/// The characters of a text that may be missing.
pub open spec fn text_of(o: Option<&str>) -> Option<Seq<char>> {
    match o {
        Some(s) => Some(s@),
        None => None,
    }
}

/// The character sequences of a list of texts that may be missing.
pub open spec fn texts_of(o: Option<Vec<String>>) -> Option<Seq<Seq<char>>> {
    match o {
        Some(v) => Some(views(v@)),
        None => None,
    }
}

/// The character sequences held by a vector of strings, in order.
pub open spec fn views(v: Seq<String>) -> Seq<Seq<char>> {
    Seq::new(v.len(), |i: int| v[i]@)
}

/// `s` without its leading run of `c`.
pub open spec fn trim_start(s: Seq<char>, c: char) -> Seq<char>
    decreases s.len(),
{
    if s.len() > 0 && s[0] == c {
        trim_start(s.drop_first(), c)
    } else {
        s
    }
}

/// Number of leading characters of `s` equal to `c`.
pub open spec fn leading_run(s: Seq<char>, c: char) -> nat
    decreases s.len(),
{
    if s.len() > 0 && s[0] == c {
        1 + leading_run(s.drop_first(), c)
    } else {
        0
    }
}

/// Trimming removes exactly the leading run: what is left is the tail after
/// it, and that tail does not start with `c`.
pub proof fn lemma_trim_start(s: Seq<char>, c: char)
    ensures
        leading_run(s, c) <= s.len(),
        trim_start(s, c) == s.skip(leading_run(s, c) as int),
        forall|i: int| 0 <= i < leading_run(s, c) ==> s[i] == c,
        leading_run(s, c) < s.len() ==> s[leading_run(s, c) as int] != c,
        trim_start(s, c).len() > 0 ==> trim_start(s, c)[0] != c,
    decreases s.len(),
{
    if s.len() > 0 && s[0] == c {
        let t = s.drop_first();
        lemma_trim_start(t, c);
        assert forall|i: int| 0 <= i < leading_run(s, c) implies s[i] == c by {
            if i > 0 {
                assert(t[i - 1] == s[i]);
            }
        }
    }
}

/// If the first `k` characters of `s` are `c` and the next one, if any, is
/// not, the leading run has length `k`.
pub proof fn lemma_leading_run_is(s: Seq<char>, c: char, k: nat)
    requires
        k <= s.len(),
        forall|i: int| 0 <= i < k ==> s[i] == c,
        k < s.len() ==> s[k as int] != c,
    ensures
        leading_run(s, c) == k,
    decreases k,
{
    if k > 0 {
        let t = s.drop_first();
        lemma_leading_run_is(t, c, (k - 1) as nat);
    }
}

/// The text made of `v[from..to]`.
pub fn slice_text(v: &Vec<char>, from: usize, to: usize) -> (r: String)
    requires
        from <= to <= v.len(),
    ensures
        r@ == v@.subrange(from as int, to as int),
{
    let mut r = String::new();
    let mut i: usize = from;
    while i < to
        invariant
            from <= i <= to <= v.len(),
            r@ == v@.subrange(from as int, i as int),
        decreases to - i,
    {
        push_char(&mut r, v[i]);
        i += 1;
    }
    r
}

/// Copy of `s` without its leading run of `c`.
pub fn trim_start_char(s: &str, c: char) -> (r: String)
    ensures
        r@ == trim_start(s@, c),
{
    let v = to_chars(s);
    let mut k: usize = 0;
    while k < v.len() && v[k] == c
        invariant
            k <= v.len(),
            forall|i: int| 0 <= i < k ==> v@[i] == c,
        decreases v.len() - k,
    {
        k += 1;
    }
    proof {
        lemma_leading_run_is(v@, c, k as nat);
        lemma_trim_start(v@, c);
    }
    slice_text(&v, k, v.len())
}

/// Whether some entry of `list` spells `name`.
pub open spec fn has_name(list: Seq<Seq<char>>, name: Seq<char>) -> bool {
    exists|i: int| 0 <= i < list.len() && list[i] == name
}

/// Whether some entry of `list` spells `name`.
pub fn contains_name(list: &Vec<String>, name: &str) -> (r: bool)
    ensures
        r == has_name(views(list@), name@),
{
    let wanted: String = name.to_owned();
    let mut i: usize = 0;
    while i < list.len()
        invariant
            i <= list.len(),
            wanted@ == name@,
            forall|j: int| 0 <= j < i ==> views(list@)[j] != name@,
        decreases list.len() - i,
    {
        if list[i] == wanted {
            assert(views(list@)[i as int] == name@);
            return true;
        }
        i += 1;
    }
    false
}

/// Whether two texts hold the same characters.
pub fn same_text(a: &str, b: &str) -> (r: bool)
    ensures
        r == (a@ == b@),
{
    let x: String = a.to_owned();
    let y: String = b.to_owned();
    x == y
}

/// Number of characters of `s` before its first `c`; the whole length where
/// `s` holds none.
pub open spec fn chars_before(s: Seq<char>, c: char) -> nat
    decreases s.len(),
{
    if s.len() == 0 || s[0] == c {
        0
    } else {
        1 + chars_before(s.drop_first(), c)
    }
}

/// If the first `k` characters of `s` differ from `c` and the next one, if
/// any, is `c`, then `k` characters stand before the first `c`.
pub proof fn lemma_chars_before_is(s: Seq<char>, c: char, k: nat)
    requires
        k <= s.len(),
        forall|i: int| 0 <= i < k ==> s[i] != c,
        k < s.len() ==> s[k as int] == c,
    ensures
        chars_before(s, c) == k,
    decreases k,
{
    if k > 0 {
        let t = s.drop_first();
        lemma_chars_before_is(t, c, (k - 1) as nat);
    }
}

/// The position of the first `c` in `v[from..to]`, or `to` where there is
/// none.
pub fn find_char(v: &Vec<char>, from: usize, to: usize, c: char) -> (k: usize)
    requires
        from <= to <= v.len(),
    ensures
        from <= k <= to,
        k - from == chars_before(v@.subrange(from as int, to as int), c),
{
    let mut k: usize = from;
    while k < to && v[k] != c
        invariant
            from <= k <= to <= v.len(),
            forall|i: int| from <= i < k ==> v@[i] != c,
        decreases to - k,
    {
        k += 1;
    }
    proof {
        lemma_chars_before_is(v@.subrange(from as int, to as int), c, (k - from) as nat);
    }
    k
}

/// `s` without its trailing run of `c`.
pub open spec fn trim_end(s: Seq<char>, c: char) -> Seq<char>
    decreases s.len(),
{
    if s.len() > 0 && s.last() == c {
        trim_end(s.drop_last(), c)
    } else {
        s
    }
}

/// If `s[k..]` is all `c` and the character before it, if any, is not, then
/// trimming the end leaves the first `k` characters.
pub proof fn lemma_trim_end_is(s: Seq<char>, c: char, k: nat)
    requires
        k <= s.len(),
        forall|i: int| k <= i < s.len() ==> s[i] == c,
        k > 0 ==> s[k - 1] != c,
    ensures
        trim_end(s, c) == s.take(k as int),
    decreases s.len() - k,
{
    if k < s.len() {
        let t = s.drop_last();
        lemma_trim_end_is(t, c, k);
    }
}

/// The pieces of `s` between occurrences of `c`: one more piece than there
/// are occurrences, so an empty text has one empty piece.
pub open spec fn split_on(s: Seq<char>, c: char) -> Seq<Seq<char>>
    decreases s.len(),
{
    let k = chars_before(s, c);
    if k >= s.len() {
        seq![s]
    } else {
        seq![s.take(k as int)] + split_on(s.skip(k as int + 1), c)
    }
}

/// The pieces of `v[from..to]` between occurrences of `c`.
pub fn split_chars(v: &Vec<char>, from: usize, to: usize, c: char) -> (r: Vec<String>)
    requires
        from <= to <= v.len(),
    ensures
        views(r@) == split_on(v@.subrange(from as int, to as int), c),
{
    let ghost whole = v@.subrange(from as int, to as int);
    let mut out: Vec<String> = Vec::new();
    let mut start: usize = from;
    let mut done = false;
    while !done
        invariant
            from <= start <= to <= v.len(),
            whole == v@.subrange(from as int, to as int),
            !done ==> split_on(whole, c) == views(out@) + split_on(
                v@.subrange(start as int, to as int),
                c,
            ),
            done ==> split_on(whole, c) == views(out@),
        decreases to - start + (if done { 0int } else { 1int }),
    {
        let ghost rest = v@.subrange(start as int, to as int);
        let k = find_char(v, start, to, c);
        let piece = slice_text(v, start, k);
        out.push(piece);
        if k < to {
            assert(rest.take(k - start) =~= piece@);
            assert(rest.skip(k - start + 1) =~= v@.subrange(k + 1, to as int));
            assert(split_on(whole, c) =~= views(out@) + split_on(
                v@.subrange(k + 1, to as int),
                c,
            ));
            start = k + 1;
        } else {
            done = true;
        }
    }
    out
}

} // verus!
