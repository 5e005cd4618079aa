use vstd::prelude::*;

verus! {

/// Index of the first `a` in `s` at or after `from`.
pub open spec fn find_elem<A>(s: Seq<A>, a: A, from: int) -> Option<int>
    decreases s.len() - from,
{
    if from < 0 || from >= s.len() {
        None
    } else if s[from] == a {
        Some(from)
    } else {
        find_elem(s, a, from + 1)
    }
}

/// Index of the first place at or after `from` where `a` is directly followed by `b`.
pub open spec fn find_pair<A>(s: Seq<A>, a: A, b: A, from: int) -> Option<int>
    decreases s.len() - from,
{
    if from < 0 || from + 1 >= s.len() {
        None
    } else if s[from] == a && s[from + 1] == b {
        Some(from)
    } else {
        find_pair(s, a, b, from + 1)
    }
}

/// An executable index read as a mathematical one.
pub open spec fn opt_index(r: Option<usize>) -> Option<int> {
    match r {
        Some(i) => Some(i as int),
        None => None,
    }
}

pub proof fn lemma_find_elem<A>(s: Seq<A>, a: A, from: int)
    requires
        0 <= from,
    ensures
        match find_elem(s, a, from) {
            Some(i) => from <= i < s.len() && s[i] == a && forall|j: int|
                from <= j < i ==> s[j] != a,
            None => forall|j: int| from <= j < s.len() ==> s[j] != a,
        },
    decreases s.len() - from,
{
    if from < s.len() && s[from] != a {
        lemma_find_elem(s, a, from + 1);
    }
}

pub proof fn lemma_find_pair<A>(s: Seq<A>, a: A, b: A, from: int)
    requires
        0 <= from,
    ensures
        match find_pair(s, a, b, from) {
            Some(i) => from <= i && i + 1 < s.len() && s[i] == a && s[i + 1] == b && forall|j: int|
                from <= j < i ==> !(#[trigger] s[j] == a && s[j + 1] == b),
            None => forall|j: int| from <= j && j + 1 < s.len() ==> !(#[trigger] s[j] == a && s[j + 1] == b),
        },
    decreases s.len() - from,
{
    if from + 1 < s.len() && !(s[from] == a && s[from + 1] == b) {
        lemma_find_pair(s, a, b, from + 1);
    }
}

/// Position of the first `c` in `s` at or after char index `from`.
pub fn find_char(s: &str, c: char, from: usize) -> (r: Option<usize>)
    ensures
        opt_index(r) == find_elem(s@, c, from as int),
{
    let n = s.unicode_len();
    let mut i = from;
    if i >= n {
        return None;
    }
    while i < n
        invariant
            from <= i <= n,
            n == s@.len(),
            find_elem(s@, c, from as int) == find_elem(s@, c, i as int),
        decreases n - i,
    {
        if s.get_char(i) == c {
            return Some(i);
        }
        i = i + 1;
    }
    None
}

/// Position of the first `a` directly followed by `b` in `s`, at or after char index `from`.
pub fn find_char_pair(s: &str, a: char, b: char, from: usize) -> (r: Option<usize>)
    ensures
        opt_index(r) == find_pair(s@, a, b, from as int),
{
    let n = s.unicode_len();
    let mut i = from;
    if n == 0 || i >= n - 1 {
        return None;
    }
    while i + 1 < n
        invariant
            from <= i < n,
            n == s@.len(),
            find_pair(s@, a, b, from as int) == find_pair(s@, a, b, i as int),
        decreases n - i,
    {
        if s.get_char(i) == a && s.get_char(i + 1) == b {
            return Some(i);
        }
        i = i + 1;
    }
    None
}

/// Position of the first CR LF in `s` at or after byte index `from`.
pub fn find_crlf(s: &[u8], from: usize) -> (r: Option<usize>)
    ensures
        opt_index(r) == find_pair(s@, 13u8, 10u8, from as int),
{
    let n = s.len();
    let mut i = from;
    if n == 0 || i >= n - 1 {
        return None;
    }
    while i + 1 < n
        invariant
            from <= i < n,
            n == s@.len(),
            find_pair(s@, 13u8, 10u8, from as int) == find_pair(s@, 13u8, 10u8, i as int),
        decreases n - i,
    {
        if s[i] == 13u8 && s[i + 1] == 10u8 {
            return Some(i);
        }
        i = i + 1;
    }
    None
}

/// Whether two strings hold the same characters.
pub fn str_eq(a: &str, b: &str) -> (r: bool)
    ensures
        r == (a@ == b@),
{
    let n = a.unicode_len();
    if n != b.unicode_len() {
        return false;
    }
    let mut i: usize = 0;
    while i < n
        invariant
            i <= n,
            n == a@.len(),
            n == b@.len(),
            forall|j: int| 0 <= j < i ==> a@[j] == b@[j],
        decreases n - i,
    {
        if a.get_char(i) != b.get_char(i) {
            return false;
        }
        i = i + 1;
    }
    assert(a@ =~= b@);
    true
}

/// The characters of `s` from char index `from` up to `to`, as an owned string.
pub fn substring(s: &str, from: usize, to: usize) -> (r: String)
    requires
        from <= to <= s@.len(),
    ensures
        r@ == s@.subrange(from as int, to as int),
{
    s.substring_char(from, to).to_owned()
}

} // verus!
