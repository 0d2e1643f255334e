use vstd::prelude::*;

verus! {

/// The character views of a sequence of strings.
pub open spec fn views(v: Seq<String>) -> Seq<Seq<char>> {
    v.map_values(|x: String| x@)
}

/// `p` occurs in `s` starting at index `i`.
pub open spec fn matches_at(s: Seq<char>, p: Seq<char>, i: int) -> bool {
    &&& 0 <= i
    &&& i + p.len() <= s.len()
    &&& s.subrange(i, i + p.len()) == p
}

/// `s` begins with `p`.
pub open spec fn has_prefix(s: Seq<char>, p: Seq<char>) -> bool {
    p.len() <= s.len() && s.take(p.len() as int) == p
}

/// `s` ends with `p`.
pub open spec fn has_suffix(s: Seq<char>, p: Seq<char>) -> bool {
    p.len() <= s.len() && s.skip(s.len() - p.len()) == p
}

/// The index of the leftmost occurrence of a non-empty pattern `p` in `s`.
pub open spec fn find_pat(s: Seq<char>, p: Seq<char>) -> Option<int>
    decreases s.len(),
{
    if s.len() < p.len() {
        None
    } else if s.take(p.len() as int) == p {
        Some(0)
    } else if s.len() == 0 {
        None
    } else {
        match find_pat(s.drop_first(), p) {
            Some(i) => Some(i + 1),
            None => None,
        }
    }
}

pub proof fn lemma_find_first(s: Seq<char>, p: Seq<char>, k: int)
    requires
        matches_at(s, p, k),
        forall|j: int| 0 <= j < k ==> !matches_at(s, p, j),
    ensures
        find_pat(s, p) == Some(k),
    decreases k,
{
    if k == 0 {
        assert(s.take(p.len() as int) =~= s.subrange(0, p.len() as int));
    } else {
        assert(s.take(p.len() as int) =~= s.subrange(0, p.len() as int));
        assert(!matches_at(s, p, 0));
        let t = s.drop_first();
        assert(t.subrange(k - 1, k - 1 + p.len()) =~= s.subrange(k, k + p.len()));
        assert forall|j: int| 0 <= j < k - 1 implies !matches_at(t, p, j) by {
            assert(t.subrange(j, j + p.len()) =~= s.subrange(j + 1, j + 1 + p.len()));
            assert(!matches_at(s, p, j + 1));
        }
        lemma_find_first(t, p, k - 1);
    }
}

pub proof fn lemma_find_none(s: Seq<char>, p: Seq<char>)
    requires
        p.len() > 0,
        forall|j: int| 0 <= j && j + p.len() <= s.len() ==> !matches_at(s, p, j),
    ensures
        find_pat(s, p) is None,
    decreases s.len(),
{
    if s.len() < p.len() {
    } else {
        assert(s.take(p.len() as int) =~= s.subrange(0, p.len() as int));
        assert(!matches_at(s, p, 0));
        let t = s.drop_first();
        assert forall|j: int| 0 <= j && j + p.len() <= t.len() implies !matches_at(t, p, j) by {
            assert(t.subrange(j, j + p.len()) =~= s.subrange(j + 1, j + 1 + p.len()));
            assert(!matches_at(s, p, j + 1));
        }
        lemma_find_none(t, p);
    }
}

pub proof fn lemma_find_sound(s: Seq<char>, p: Seq<char>)
    ensures
        find_pat(s, p) matches Some(i) ==> matches_at(s, p, i) && forall|j: int|
            0 <= j < i ==> !matches_at(s, p, j),
    decreases s.len(),
{
    if s.len() < p.len() {
    } else if s.take(p.len() as int) == p {
        assert(s.take(p.len() as int) =~= s.subrange(0, p.len() as int));
    } else if s.len() == 0 {
    } else {
        let t = s.drop_first();
        lemma_find_sound(t, p);
        assert(s.take(p.len() as int) =~= s.subrange(0, p.len() as int));
        if let Some(i) = find_pat(t, p) {
            assert(s.subrange(i + 1, i + 1 + p.len()) =~= t.subrange(i, i + p.len()));
            assert forall|j: int| 0 <= j < i + 1 implies !matches_at(s, p, j) by {
                if j > 0 {
                    assert(s.subrange(j, j + p.len()) =~= t.subrange(j - 1, j - 1 + p.len()));
                    assert(!matches_at(t, p, j - 1));
                } else {
                    assert(s.take(p.len() as int) != p);
                }
            }
        }
    }
}

/// The pieces of `s` between the occurrences of a non-empty separator `p`,
/// as `str::split` yields them.
pub open spec fn split_pat(s: Seq<char>, p: Seq<char>) -> Seq<Seq<char>>
    decreases s.len(),
{
    if p.len() == 0 {
        seq![s]
    } else {
        match find_pat(s, p) {
            None => seq![s],
            Some(i) => {
                proof {
                    lemma_find_sound(s, p);
                }
                seq![s.take(i)] + split_pat(s.skip(i + p.len()), p)
            },
        }
    }
}

/// The characters of a string slice, in order.
pub fn chars_of(s: &str) -> (r: Vec<char>)
    ensures
        r@ == s@,
{
    let mut v: Vec<char> = Vec::new();
    for c in it: s.chars()
        invariant
            v@ == it.seq().take(it.index() as int),
            it.seq() == s@,
    {
        v.push(c);
    }
    v
}

/// Whether `p` occurs in `s` at index `i`.
pub fn matches_here(s: &Vec<char>, p: &Vec<char>, i: usize) -> (r: bool)
    requires
        i + p@.len() <= s@.len(),
    ensures
        r == matches_at(s@, p@, i as int),
{
    let n = s.len();
    let mut k: usize = 0;
    while k < p.len()
        invariant
            k <= p@.len(),
            i + p@.len() <= s@.len(),
            n == s@.len(),
            forall|m: int| 0 <= m < k ==> s@[i + m] == p@[m],
        decreases p@.len() - k,
    {
        assert(i + k < s@.len());
        if s[i + k] != p[k] {
            assert(s@.subrange(i as int, i + p@.len())[k as int] != p@[k as int]);
            return false;
        }
        k = k + 1;
    }
    assert(s@.subrange(i as int, i + p@.len()) =~= p@);
    true
}

/// The leftmost occurrence of `p` in `s` at or after `start`.
pub fn find_from(s: &Vec<char>, p: &Vec<char>, start: usize) -> (r: Option<usize>)
    requires
        start <= s@.len(),
        p@.len() > 0,
    ensures
        match r {
            Some(i) => start <= i && matches_at(s@, p@, i as int) && forall|j: int|
                start <= j < i ==> !matches_at(s@, p@, j),
            None => forall|j: int|
                start <= j && j + p@.len() <= s@.len() ==> !matches_at(s@, p@, j),
        },
{
    let mut j = start;
    while p.len() <= s.len() - j
        invariant
            start <= j,
            j <= s@.len(),
            p@.len() > 0,
            forall|m: int| start <= m < j ==> !matches_at(s@, p@, m),
        decreases s@.len() - j,
    {
        if matches_here(s, p, j) {
            return Some(j);
        }
        j = j + 1;
    }
    None
}

/// `str::contains` with a string pattern: `p` occurs somewhere in `s`.
pub open spec fn contains_spec(s: Seq<char>, p: Seq<char>) -> bool {
    exists|i: int| matches_at(s, p, i)
}

/// Whether `p` occurs in `s`.
pub fn contains_str(s: &str, p: &str) -> (r: bool)
    ensures
        r == contains_spec(s@, p@),
{
    let sv = chars_of(s);
    let pv = chars_of(p);
    if pv.len() == 0 {
        assert(s@.subrange(0, 0) =~= p@);
        assert(matches_at(s@, p@, 0));
        return true;
    }
    match find_from(&sv, &pv, 0) {
        Some(i) => true,
        None => {
            assert forall|i: int| !matches_at(s@, p@, i) by {
                if matches_at(s@, p@, i) {
                    assert(0 <= i && i + p@.len() <= s@.len());
                }
            }
            false
        },
    }
}

/// Splits `s` at every occurrence of the non-empty separator `p`.
pub fn split_str(s: &str, p: &str) -> (r: Vec<String>)
    requires
        p@.len() > 0,
    ensures
        views(r@) == split_pat(s@, p@),
{
    let sv = chars_of(s);
    let pv = chars_of(p);
    let mut pieces: Vec<String> = Vec::new();
    let mut start: usize = 0;
    proof {
        assert(s@.skip(0) =~= s@);
        assert(views(pieces@) + split_pat(s@, p@) =~= split_pat(s@, p@));
    }
    loop
        invariant
            sv@ == s@,
            pv@ == p@,
            p@.len() > 0,
            start <= s@.len(),
            split_pat(s@, p@) == views(pieces@) + split_pat(s@.skip(start as int), p@),
        decreases s@.len() - start,
    {
        let ghost rest = s@.skip(start as int);
        match find_from(&sv, &pv, start) {
            Some(i) => {
                proof {
                    assert(rest.subrange(i - start, i - start + p@.len()) =~= s@.subrange(
                        i as int,
                        i + p@.len(),
                    ));
                    assert forall|j: int| 0 <= j < i - start implies !matches_at(rest, p@, j) by {
                        assert(rest.subrange(j, j + p@.len()) =~= s@.subrange(
                            j + start,
                            j + start + p@.len(),
                        ));
                        assert(!matches_at(s@, p@, j + start));
                    }
                    lemma_find_first(rest, p@, i - start);
                    assert(rest.take(i - start) =~= s@.subrange(start as int, i as int));
                    assert(rest.skip(i - start + p@.len()) =~= s@.skip(i + p@.len()));
                }
                let piece = String::from_str(s.substring_char(start, i));
                let ghost prev = pieces@;
                pieces.push(piece);
                proof {
                    assert(views(pieces@) =~= views(prev).push(piece@));
                    assert(split_pat(rest, p@) == seq![rest.take(i - start)] + split_pat(
                        rest.skip(i - start + p@.len()),
                        p@,
                    ));
                    assert(views(pieces@) + split_pat(s@.skip(i + p@.len()), p@) =~= views(prev)
                        + split_pat(rest, p@));
                }
                assert(matches_at(sv@, pv@, i as int));
                let n = sv.len();
                start = i + pv.len();
            },
            None => {
                proof {
                    assert forall|j: int|
                        0 <= j && j + p@.len() <= rest.len() implies !matches_at(
                        rest,
                        p@,
                        j,
                    ) by {
                        assert(rest.subrange(j, j + p@.len()) =~= s@.subrange(
                            j + start,
                            j + start + p@.len(),
                        ));
                        assert(!matches_at(s@, p@, j + start));
                    }
                    lemma_find_none(rest, p@);
                }
                let piece = String::from_str(s.substring_char(start, sv.len()));
                let ghost prev = pieces@;
                pieces.push(piece);
                proof {
                    assert(rest =~= s@.subrange(start as int, s@.len() as int));
                    assert(views(pieces@) =~= views(prev).push(piece@));
                    assert(views(pieces@) =~= views(prev) + split_pat(rest, p@));
                }
                return pieces;
            },
        }
    }
}


/// What `str::split_once(p)` returns: the text before and after the first
/// occurrence of `p`.
pub open spec fn split_once_spec(s: Seq<char>, p: Seq<char>) -> Option<(Seq<char>, Seq<char>)> {
    match find_pat(s, p) {
        Some(i) => Some((s.take(i), s.skip(i + p.len()))),
        None => None,
    }
}

/// `str::split_once` with a non-empty pattern.
pub fn split_once<'a>(s: &'a str, p: &str) -> (r: Option<(&'a str, &'a str)>)
    requires
        p@.len() > 0,
    ensures
        match split_once_spec(s@, p@) {
            Some((a, b)) => r matches Some(x) && x.0@ == a && x.1@ == b,
            None => r is None,
        },
{
    let sv = chars_of(s);
    let pv = chars_of(p);
    match find_from(&sv, &pv, 0) {
        Some(i) => {
            proof {
                assert(s@.skip(0) =~= s@);
                lemma_find_first(s@, p@, i as int);
            }
            let n = sv.len();
            let a = s.substring_char(0, i);
            let b = s.substring_char(i + pv.len(), n);
            proof {
                assert(s@.subrange(0, i as int) =~= s@.take(i as int));
                assert(s@.subrange(i + p@.len(), n as int) =~= s@.skip(i + p@.len()));
            }
            Some((a, b))
        },
        None => {
            proof {
                lemma_find_none(s@, p@);
            }
            None
        },
    }
}

/// The number of bytes that UTF-8 spends on `c`.
pub open spec fn utf8_len(c: char) -> nat {
    if (c as u32) < 0x80 {
        1
    } else if (c as u32) < 0x800 {
        2
    } else if (c as u32) < 0x10000 {
        3
    } else {
        4
    }
}

/// The number of bytes that UTF-8 spends on `c`.
pub fn char_utf8_len(c: char) -> (r: usize)
    ensures
        r == utf8_len(c),
{
    let u = c as u32;
    if u < 0x80 {
        1
    } else if u < 0x800 {
        2
    } else if u < 0x10000 {
        3
    } else {
        4
    }
}

/// The byte slice `s[n..]` of the text `s`: `None` where byte `n` lies past
/// the end or inside a character, where slicing a `str` panics.
pub open spec fn byte_skip(s: Seq<char>, n: nat) -> Option<Seq<char>>
    decreases s.len(),
{
    if n == 0 {
        Some(s)
    } else if s.len() == 0 {
        None
    } else if utf8_len(s[0]) > n {
        None
    } else {
        byte_skip(s.drop_first(), (n - utf8_len(s[0])) as nat)
    }
}

/// `s.get(n..)`: the text after its first `n` bytes, when byte `n` starts a
/// character or ends the text.
pub fn skip_bytes(s: &str, n: u128) -> (r: Option<&str>)
    ensures
        match byte_skip(s@, n as nat) {
            Some(t) => r matches Some(x) && x@ == t,
            None => r is None,
        },
{
    let len = s.unicode_len();
    let mut i: usize = 0;
    let mut rem: u128 = n;
    proof {
        assert(s@.skip(0) =~= s@);
    }
    while i < len && rem > 0
        invariant
            i <= len,
            len == s@.len(),
            rem <= n,
            byte_skip(s@, n as nat) == byte_skip(s@.skip(i as int), rem as nat),
        decreases len - i,
    {
        let c = s.get_char(i);
        let l = char_utf8_len(c) as u128;
        proof {
            assert(s@.skip(i as int)[0] == c);
            assert(s@.skip(i as int).drop_first() =~= s@.skip(i + 1));
        }
        if l > rem {
            return None;
        }
        rem = rem - l;
        i = i + 1;
    }
    if rem == 0 {
        Some(s.substring_char(i, len))
    } else {
        proof {
            assert(s@.skip(i as int).len() == 0);
        }
        None
    }
}

/// The number of bytes that UTF-8 spends on the text `s`.
pub open spec fn utf8_bytes(s: Seq<char>) -> nat
    decreases s.len(),
{
    if s.len() == 0 {
        0
    } else {
        utf8_bytes(s.drop_last()) + utf8_len(s.last())
    }
}

/// `str::len`: the number of bytes that UTF-8 spends on `s`.
pub fn utf8_count(s: &str) -> (r: u128)
    ensures
        r == utf8_bytes(s@),
        r <= 4 * s@.len(),
        s@.len() <= usize::MAX,
{
    let len = s.unicode_len();
    let mut i: usize = 0;
    let mut total: u128 = 0;
    while i < len
        invariant
            i <= len,
            len == s@.len(),
            total == utf8_bytes(s@.take(i as int)),
            total <= 4 * i,
        decreases len - i,
    {
        let c = s.get_char(i);
        proof {
            assert(s@.take(i + 1).drop_last() =~= s@.take(i as int));
        }
        total = total + char_utf8_len(c) as u128;
        i = i + 1;
    }
    proof {
        assert(s@.take(i as int) =~= s@);
    }
    total
}

/// Splitting yields at least one piece.
pub proof fn lemma_split_nonempty(s: Seq<char>, p: Seq<char>)
    ensures
        split_pat(s, p).len() >= 1,
{
    if p.len() > 0 {
        match find_pat(s, p) {
            None => {},
            Some(i) => {
                assert((seq![s.take(i)] + split_pat(s.skip(i + p.len()), p)).len() >= 1);
            },
        }
    }
}

/// Skipping `n > 0` bytes leaves a shorter text.
pub proof fn lemma_byte_skip_shorter(s: Seq<char>, n: nat)
    requires
        n > 0,
        byte_skip(s, n) is Some,
    ensures
        byte_skip(s, n)->Some_0.len() < s.len(),
    decreases s.len(),
{
    if s.len() > 0 && utf8_len(s[0]) < n {
        lemma_byte_skip_shorter(s.drop_first(), (n - utf8_len(s[0])) as nat);
    } else if s.len() > 0 {
        let rest = s.drop_first();
        assert(byte_skip(rest, 0) == Some(rest));
    }
}

/// `s` starts with an ASCII character, so that `&s[0..1]` is that character.
pub open spec fn first_ascii(s: Seq<char>) -> Option<char> {
    if s.len() > 0 && (s[0] as u32) < 0x80 {
        Some(s[0])
    } else {
        None
    }
}

/// `&s[0..1]` as a character: `None` where the slice panics, that is for an
/// empty text or one whose first character takes more than one byte.
pub fn first_ascii_char(s: &str) -> (r: Option<char>)
    ensures
        r == first_ascii(s@),
{
    if s.unicode_len() == 0 {
        return None;
    }
    let c = s.get_char(0);
    if (c as u32) < 0x80 {
        Some(c)
    } else {
        None
    }
}

/// `s` without its first `n` characters.
pub fn skip_chars(s: &str, n: usize) -> (r: &str)
    requires
        n <= s@.len(),
    ensures
        r@ == s@.skip(n as int),
{
    let len = s.unicode_len();
    s.substring_char(n, len)
}

/// `str::starts_with` on string slices.
pub fn starts_with(s: &str, p: &str) -> (r: bool)
    ensures
        r == has_prefix(s@, p@),
{
    let sv = chars_of(s);
    let pv = chars_of(p);
    if pv.len() > sv.len() {
        return false;
    }
    let r = matches_here(&sv, &pv, 0);
    proof {
        assert(s@.take(p@.len() as int) =~= s@.subrange(0, p@.len() as int));
    }
    r
}

/// `str::ends_with` on string slices.
pub fn ends_with(s: &str, p: &str) -> (r: bool)
    ensures
        r == has_suffix(s@, p@),
{
    let sv = chars_of(s);
    let pv = chars_of(p);
    if pv.len() > sv.len() {
        return false;
    }
    let r = matches_here(&sv, &pv, sv.len() - pv.len());
    proof {
        assert(s@.skip(s@.len() - p@.len()) =~= s@.subrange(s@.len() - p@.len(), s@.len() as int));
    }
    r
}

/// Whether the character `c` occurs in `s`.
pub fn contains_char(s: &str, c: char) -> (r: bool)
    ensures
        r == s@.contains(c),
{
    let sv = chars_of(s);
    let mut i: usize = 0;
    while i < sv.len()
        invariant
            sv@ == s@,
            i <= sv@.len(),
            forall|j: int| 0 <= j < i ==> sv@[j] != c,
        decreases sv@.len() - i,
    {
        if sv[i] == c {
            return true;
        }
        i = i + 1;
    }
    false
}

/// Equality of the characters of two string slices.
pub fn str_eq(a: &str, b: &str) -> (r: bool)
    ensures
        r == (a@ == b@),
{
    let x = String::from_str(a);
    let y = String::from_str(b);
    x.eq(&y)
}

/// The characters that `char::is_whitespace` accepts (Unicode `White_Space`).
pub open spec fn is_ws(c: char) -> bool {
    let u = c as u32;
    ||| 9 <= u <= 13
    ||| u == 32
    ||| u == 0x85
    ||| u == 0xa0
    ||| u == 0x1680
    ||| 0x2000 <= u <= 0x200a
    ||| u == 0x2028
    ||| u == 0x2029
    ||| u == 0x202f
    ||| u == 0x205f
    ||| u == 0x3000
}

/// `char::is_whitespace`.
pub fn is_whitespace(c: char) -> (r: bool)
    ensures
        r == is_ws(c),
{
    let u = c as u32;
    (9 <= u && u <= 13) || u == 32 || u == 0x85 || u == 0xa0 || u == 0x1680 || (0x2000 <= u && u
        <= 0x200a) || u == 0x2028 || u == 0x2029 || u == 0x202f || u == 0x205f || u == 0x3000
}

/// `s` without its leading whitespace.
pub open spec fn trim_start_spec(s: Seq<char>) -> Seq<char>
    decreases s.len(),
{
    if s.len() > 0 && is_ws(s[0]) {
        trim_start_spec(s.drop_first())
    } else {
        s
    }
}

/// `s` without its trailing whitespace.
pub open spec fn trim_end_spec(s: Seq<char>) -> Seq<char>
    decreases s.len(),
{
    if s.len() > 0 && is_ws(s.last()) {
        trim_end_spec(s.drop_last())
    } else {
        s
    }
}

/// `str::trim`: `s` without leading and trailing whitespace.
pub open spec fn trim_spec(s: Seq<char>) -> Seq<char> {
    trim_end_spec(trim_start_spec(s))
}

pub proof fn lemma_trim_start(s: Seq<char>, i: int)
    requires
        0 <= i <= s.len(),
        forall|j: int| 0 <= j < i ==> is_ws(s[j]),
        i == s.len() || !is_ws(s[i]),
    ensures
        trim_start_spec(s) == s.skip(i),
    decreases i,
{
    if i == 0 {
        assert(s.skip(0) =~= s);
    } else {
        let t = s.drop_first();
        assert forall|j: int| 0 <= j < i - 1 implies is_ws(t[j]) by {
            assert(is_ws(s[j + 1]));
        }
        lemma_trim_start(t, i - 1);
        assert(t.skip(i - 1) =~= s.skip(i));
    }
}

pub proof fn lemma_trim_end(s: Seq<char>, k: int)
    requires
        0 <= k <= s.len(),
        forall|j: int| k <= j < s.len() ==> is_ws(s[j]),
        k == 0 || !is_ws(s[k - 1]),
    ensures
        trim_end_spec(s) == s.take(k),
    decreases s.len() - k,
{
    if k == s.len() {
        assert(s.take(k) =~= s);
    } else {
        let t = s.drop_last();
        assert forall|j: int| k <= j < t.len() implies is_ws(t[j]) by {
            assert(is_ws(s[j]));
        }
        assert(is_ws(s[s.len() - 1]));
        lemma_trim_end(t, k);
        assert(t.take(k) =~= s.take(k));
    }
}

/// `str::trim`.
pub fn trim(s: &str) -> (r: &str)
    ensures
        r@ == trim_spec(s@),
{
    let v = chars_of(s);
    let n = v.len();
    let mut i: usize = 0;
    while i < n && is_whitespace(v[i])
        invariant
            v@ == s@,
            n == v@.len(),
            i <= n,
            forall|j: int| 0 <= j < i ==> is_ws(v@[j]),
        decreases n - i,
    {
        i = i + 1;
    }
    proof {
        lemma_trim_start(s@, i as int);
    }
    let ghost t = s@.skip(i as int);
    let mut k: usize = n;
    while k > i && is_whitespace(v[k - 1])
        invariant
            v@ == s@,
            n == v@.len(),
            i <= k <= n,
            forall|j: int| k <= j < n ==> is_ws(v@[j]),
        decreases k,
    {
        k = k - 1;
    }
    proof {
        assert forall|j: int| k - i <= j < t.len() implies is_ws(t[j]) by {
            assert(is_ws(v@[j + i]));
        }
        if k > i {
            assert(t[k - i - 1] == v@[k - 1]);
        }
        lemma_trim_end(t, k - i);
        assert(t.take(k - i) =~= s@.subrange(i as int, k as int));
    }
    s.substring_char(i, k)
}

/// Whether `c` is an ASCII decimal digit.
pub open spec fn is_digit(c: char) -> bool {
    48 <= c as u32 <= 57
}

/// The value of the ASCII decimal digit `c`.
pub open spec fn digit_val(c: char) -> nat {
    (c as u32 - 48) as nat
}

/// Every character of `s` is an ASCII decimal digit.
pub open spec fn all_digits(s: Seq<char>) -> bool {
    forall|i: int| 0 <= i < s.len() ==> is_digit(#[trigger] s[i])
}

/// The number that the decimal digits `s` denote.
pub open spec fn digits_value(s: Seq<char>) -> nat
    decreases s.len(),
{
    if s.len() == 0 {
        0
    } else {
        digits_value(s.drop_last()) * 10 + digit_val(s.last())
    }
}

/// `s` with one leading `+` removed, if it has one.
pub open spec fn strip_plus(s: Seq<char>) -> Seq<char> {
    if s.len() > 0 && s[0] == '+' {
        s.drop_first()
    } else {
        s
    }
}

/// What `str::parse::<u64>` returns on `s`: an optional `+`, then one or more
/// ASCII digits whose value fits in 64 bits.
pub open spec fn parse_u64_spec(s: Seq<char>) -> Option<u64> {
    let body = strip_plus(s);
    if body.len() > 0 && all_digits(body) && digits_value(body) <= u64::MAX {
        Some(digits_value(body) as u64)
    } else {
        None
    }
}

/// What `str::parse::<i64>` returns on `s`: an optional sign, then one or more
/// ASCII digits whose signed value fits in 64 bits.
pub open spec fn parse_i64_spec(s: Seq<char>) -> Option<i64> {
    if s.len() > 0 && s[0] == '-' {
        let body = s.drop_first();
        if body.len() > 0 && all_digits(body) && digits_value(body) <= 0x8000_0000_0000_0000 {
            Some((0 - digits_value(body)) as i64)
        } else {
            None
        }
    } else {
        let body = strip_plus(s);
        if body.len() > 0 && all_digits(body) && digits_value(body) <= i64::MAX {
            Some(digits_value(body) as i64)
        } else {
            None
        }
    }
}

pub proof fn lemma_digits_value_mono(s: Seq<char>, k: int)
    requires
        0 <= k <= s.len(),
    ensures
        digits_value(s.take(k)) <= digits_value(s),
    decreases s.len() - k,
{
    if k == s.len() {
        assert(s.take(k) =~= s);
    } else {
        lemma_digits_value_mono(s.drop_last(), k);
        assert(s.drop_last().take(k) =~= s.take(k));
    }
}

/// Reads the digits `v[from..]` as a number, or `None` when one is not a digit,
/// there are none, or the number exceeds `bound`.
fn digits_upto(v: &Vec<char>, from: usize, bound: u64) -> (r: Option<u64>)
    requires
        from <= v@.len(),
    ensures
        ({
            let body = v@.skip(from as int);
            match r {
                Some(x) => body.len() > 0 && all_digits(body) && digits_value(body) <= bound
                    && x == digits_value(body),
                None => !(body.len() > 0 && all_digits(body) && digits_value(body) <= bound),
            }
        }),
{
    let ghost body = v@.skip(from as int);
    let n = v.len();
    if from == n {
        return None;
    }
    let mut acc: u64 = 0;
    let mut i: usize = from;
    proof {
        assert(body.take(0) =~= Seq::<char>::empty());
    }
    while i < n
        invariant
            from <= i <= n,
            n == v@.len(),
            body == v@.skip(from as int),
            acc <= bound,
            acc == digits_value(body.take(i - from)),
            forall|j: int| 0 <= j < i - from ==> is_digit(body[j]),
        decreases n - i,
    {
        let c = v[i];
        let u = c as u32;
        if u < 48 || u > 57 {
            assert(!is_digit(body[i - from]));
            return None;
        }
        let d = (u - 48) as u64;
        proof {
            assert(body.take(i - from + 1).drop_last() =~= body.take(i - from));
            assert(body.take(i - from + 1).last() == c);
        }
        if d > bound || acc > (bound - d) / 10 {
            proof {
                assert(digits_value(body.take(i - from + 1)) > bound);
                lemma_digits_value_mono(body, i - from + 1);
            }
            return None;
        }
        acc = acc * 10 + d;
        i = i + 1;
    }
    proof {
        assert(body.take(n - from) =~= body);
    }
    Some(acc)
}

/// `str::parse::<u64>`.
pub fn parse_u64(s: &str) -> (r: Option<u64>)
    ensures
        r == parse_u64_spec(s@),
{
    let v = chars_of(s);
    let from: usize = if v.len() > 0 && v[0] == '+' { 1 } else { 0 };
    proof {
        assert(v@.skip(from as int) =~= strip_plus(s@));
    }
    digits_upto(&v, from, u64::MAX)
}

/// `str::parse::<i64>`.
pub fn parse_i64(s: &str) -> (r: Option<i64>)
    ensures
        r == parse_i64_spec(s@),
{
    let v = chars_of(s);
    if v.len() > 0 && v[0] == '-' {
        proof {
            assert(v@.skip(1) =~= s@.drop_first());
        }
        match digits_upto(&v, 1, 0x8000_0000_0000_0000) {
            Some(m) => {
                if m == 0x8000_0000_0000_0000 {
                    Some(i64::MIN)
                } else {
                    Some(0 - (m as i64))
                }
            },
            None => None,
        }
    } else {
        let from: usize = if v.len() > 0 && v[0] == '+' { 1 } else { 0 };
        proof {
            assert(v@.skip(from as int) =~= strip_plus(s@));
        }
        match digits_upto(&v, from, 0x7fff_ffff_ffff_ffff) {
            Some(m) => Some(m as i64),
            None => None,
        }
    }
}

/// The decimal digit character for `d < 10`.
pub open spec fn digit_char(d: nat) -> char {
    if d == 0 { '0' }
    else if d == 1 { '1' }
    else if d == 2 { '2' }
    else if d == 3 { '3' }
    else if d == 4 { '4' }
    else if d == 5 { '5' }
    else if d == 6 { '6' }
    else if d == 7 { '7' }
    else if d == 8 { '8' }
    else { '9' }
}

/// The decimal numeral of `n`, as `to_string` writes it.
pub open spec fn decimal(n: nat) -> Seq<char>
    decreases n,
{
    if n < 10 {
        seq![digit_char(n)]
    } else {
        decimal(n / 10).push(digit_char(n % 10))
    }
}

/// The decimal numeral of a signed number, with a leading `-` when negative.
pub open spec fn signed_decimal(i: int) -> Seq<char> {
    if i < 0 {
        seq!['-'] + decimal((0 - i) as nat)
    } else {
        decimal(i as nat)
    }
}

fn digit_str(d: u64) -> (r: &'static str)
    requires
        d < 10,
    ensures
        r@ == seq![digit_char(d as nat)],
{
    let digits = "0123456789";
    proof {
        reveal_strlit("0123456789");
    }
    let r = digits.substring_char(d as usize, (d + 1) as usize);
    proof {
        assert(digits@.subrange(d as int, d + 1) =~= seq![digit_char(d as nat)]);
    }
    r
}

/// `u64::to_string`.
pub fn u64_to_string(n: u64) -> (r: String)
    ensures
        r@ == decimal(n as nat),
    decreases n,
{
    if n < 10 {
        String::from_str(digit_str(n))
    } else {
        let mut s = u64_to_string(n / 10);
        s.append(digit_str(n % 10));
        s
    }
}

/// `i64::to_string`.
pub fn i64_to_string(i: i64) -> (r: String)
    ensures
        r@ == signed_decimal(i as int),
{
    if i < 0 {
        let m: u64 = if i == i64::MIN { 0x8000_0000_0000_0000 } else { (0 - i) as u64 };
        let minus = "-";
        proof {
            reveal_strlit("-");
        }
        let s = String::from_str(minus);
        s.concat(u64_to_string(m).as_str())
    } else {
        u64_to_string(i as u64)
    }
}

pub proof fn lemma_digit_char(d: nat)
    requires
        d < 10,
    ensures
        is_digit(digit_char(d)),
        digit_val(digit_char(d)) == d,
{
}

pub proof fn lemma_decimal_digits(n: nat)
    ensures
        all_digits(decimal(n)),
        decimal(n).len() > 0,
        digits_value(decimal(n)) == n,
    decreases n,
{
    lemma_digit_char(n % 10);
    if n < 10 {
        lemma_digit_char(n);
        assert(decimal(n).drop_last() =~= Seq::<char>::empty());
        assert(digits_value(decimal(n)) == digits_value(decimal(n).drop_last()) * 10 + digit_val(
            decimal(n).last(),
        ));
    } else {
        lemma_decimal_digits(n / 10);
        let d = decimal(n);
        assert(d.drop_last() =~= decimal(n / 10));
        assert forall|i: int| 0 <= i < d.len() implies is_digit(#[trigger] d[i]) by {
            if i < d.len() - 1 {
                assert(d[i] == decimal(n / 10)[i]);
            }
        }
        assert((n / 10) * 10 + n % 10 == n) by (nonlinear_arith);
        assert(d.last() == digit_char(n % 10));
        assert(digits_value(d) == digits_value(d.drop_last()) * 10 + digit_val(d.last()));
    }
}

} // verus!
