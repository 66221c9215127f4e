//! Character-level helpers shared by the link codecs.
//!
//! Links are taken apart as sequences of characters: every function here has
//! a contract over `Seq<char>`, the view of `str`, `String` and `Vec<char>`.
use vstd::prelude::*;

verus! {

/// `String::push` of the standard library appends one character to the end
/// of the string and leaves the rest as it was.
pub assume_specification[ String::push ](s: &mut String, c: char)
    ensures
        final(s)@ == old(s)@.push(c),
;

/// The error of `String::from_utf8`, carried as it comes.
#[verifier::external_type_specification]
#[verifier::external_body]
pub struct ExFromUtf8Error(std::string::FromUtf8Error);

/// `String::from_utf8` of the standard library succeeds on valid UTF-8 and on
/// nothing else, and the string it returns is the one those bytes encode.
pub assume_specification[ String::from_utf8 ](bytes: Vec<u8>) -> (r: Result<
    String,
    std::string::FromUtf8Error,
>)
    ensures
        match r {
            Ok(s) => vstd::utf8::valid_utf8(bytes@) && s@ == vstd::utf8::decode_utf8(bytes@),
            Err(_) => !vstd::utf8::valid_utf8(bytes@),
        },
;

/// `i` is the position of the first `c` in `s`.
pub open spec fn is_first(s: Seq<char>, c: char, i: int) -> bool {
    &&& 0 <= i < s.len()
    &&& s[i] == c
    &&& forall|j: int| 0 <= j < i ==> s[j] != c
}

/// The position of the first `c` in `s`, if `s` holds one.
pub open spec fn find(s: Seq<char>, c: char) -> Option<int> {
    if exists|i: int| is_first(s, c, i) {
        Some(choose|i: int| is_first(s, c, i))
    } else {
        None
    }
}

/// `s` cut at its first `c`: what stands before it and what stands after it.
pub open spec fn split_once(s: Seq<char>, c: char) -> Option<(Seq<char>, Seq<char>)> {
    match find(s, c) {
        Some(i) => Some((s.take(i), s.skip(i + 1))),
        None => None,
    }
}

/// `s` cut at every `sep`: the pieces between the separators, in order.
/// A text without separator is one piece, the empty text one empty piece.
pub open spec fn split(s: Seq<char>, sep: char) -> Seq<Seq<char>>
    decreases s.len(),
{
    match find(s, sep) {
        Some(i) => if 0 <= i < s.len() {
            seq![s.take(i)] + split(s.skip(i + 1), sep)
        } else {
            seq![s]
        },
        None => seq![s],
    }
}

/// `s` begins with `prefix`.
pub open spec fn starts_with(s: Seq<char>, prefix: Seq<char>) -> bool {
    prefix.len() <= s.len() && s.take(prefix.len() as int) == prefix
}

/// `s` ends with `suffix`.
pub open spec fn ends_with(s: Seq<char>, suffix: Seq<char>) -> bool {
    suffix.len() <= s.len() && s.skip(s.len() - suffix.len()) == suffix
}

/// `pieces` written one after the other with `sep` between them.
pub open spec fn join(pieces: Seq<Seq<char>>, sep: char) -> Seq<char>
    decreases pieces.len(),
{
    if pieces.len() == 0 {
        Seq::empty()
    } else if pieces.len() == 1 {
        pieces[0]
    } else {
        pieces[0] + seq![sep] + join(pieces.drop_first(), sep)
    }
}

/// The views of a vector of strings.
pub open spec fn texts(v: Seq<String>) -> Seq<Seq<char>> {
    Seq::new(v.len(), |i: int| v[i]@)
}

/// The view of an optional string.
pub open spec fn option_text(s: Option<String>) -> Option<Seq<char>> {
    match s {
        Some(t) => Some(t@),
        None => None,
    }
}

/// The views of a vector of character vectors.
pub open spec fn views(v: Seq<Vec<char>>) -> Seq<Seq<char>> {
    Seq::new(v.len(), |i: int| v[i]@)
}

/// The first `c` is where `is_first` says it is.
pub proof fn lemma_find_at(s: Seq<char>, c: char, i: int)
    requires
        is_first(s, c, i),
    ensures
        find(s, c) == Some(i),
{
    let k = choose|k: int| is_first(s, c, k);
    assert(is_first(s, c, k));
    if k < i {
        assert(s[k] != c);
    }
    if i < k {
        assert(s[i] != c);
    }
}

/// A text that holds no `c` has no first `c`.
pub proof fn lemma_find_none(s: Seq<char>, c: char)
    requires
        !s.contains(c),
    ensures
        find(s, c) is None,
{
    if exists|i: int| is_first(s, c, i) {
        let k = choose|k: int| is_first(s, c, k);
        assert(s.contains(c));
    }
}

/// What `find` returns is a first position, and `None` means no occurrence.
pub proof fn lemma_find_is_first(s: Seq<char>, c: char)
    ensures
        match find(s, c) {
            Some(i) => is_first(s, c, i),
            None => !s.contains(c),
        },
{
    if find(s, c) is None {
        if s.contains(c) {
            lemma_first_exists(s, c, s.len() as int);
        }
    }
}

/// If `c` occurs among the first `n` characters of `s`, it has a first position.
proof fn lemma_first_exists(s: Seq<char>, c: char, n: int)
    requires
        0 <= n <= s.len(),
        exists|j: int| 0 <= j < n && s[j] == c,
    ensures
        exists|i: int| is_first(s, c, i),
    decreases n,
{
    let j = choose|j: int| 0 <= j < n && s[j] == c;
    if exists|k: int| 0 <= k < j && s[k] == c {
        lemma_first_exists(s, c, j);
    } else {
        assert(is_first(s, c, j));
    }
}

/// The characters of `s`, in order.
pub fn to_chars(s: &str) -> (r: Vec<char>)
    ensures
        r@ == s@,
{
    let mut out: Vec<char> = Vec::new();
    for c in it: s.chars()
        invariant
            it.seq() == s@,
            out@ =~= s@.take(it.index()),
    {
        out.push(c);
    }
    assert(s@.take(s@.len() as int) =~= s@);
    out
}

/// The string made of the characters of `chars`.
pub fn to_string(chars: &Vec<char>) -> (r: String)
    ensures
        r@ == chars@,
{
    let mut out = String::new();
    let mut i: usize = 0;
    while i < chars.len()
        invariant
            i <= chars.len(),
            out@ =~= chars@.take(i as int),
        decreases chars.len() - i,
    {
        out.push(chars[i]);
        i += 1;
    }
    assert(chars@.take(chars@.len() as int) =~= chars@);
    out
}

/// A copy of `chars[from..to]`.
pub fn slice(chars: &Vec<char>, from: usize, to: usize) -> (r: Vec<char>)
    requires
        from <= to <= chars.len(),
    ensures
        r@ == chars@.subrange(from as int, to as int),
{
    let mut out: Vec<char> = Vec::new();
    let mut i: usize = from;
    while i < to
        invariant
            from <= i <= to <= chars.len(),
            out@ =~= chars@.subrange(from as int, i as int),
        decreases to - i,
    {
        out.push(chars[i]);
        i += 1;
    }
    out
}

/// Whether two texts are the same, character by character.
pub fn same(a: &Vec<char>, b: &Vec<char>) -> (r: bool)
    ensures
        r == (a@ == b@),
{
    if a.len() != b.len() {
        return false;
    }
    let mut i: usize = 0;
    while i < a.len()
        invariant
            i <= a.len(),
            a.len() == b.len(),
            a@.take(i as int) =~= b@.take(i as int),
        decreases a.len() - i,
    {
        if a[i] != b[i] {
            return false;
        }
        assert(a@.take(i + 1) =~= a@.take(i as int).push(a@[i as int]));
        assert(b@.take(i + 1) =~= b@.take(i as int).push(b@[i as int]));
        i += 1;
    }
    assert(a@.take(a@.len() as int) =~= a@);
    assert(b@.take(b@.len() as int) =~= b@);
    true
}

/// Whether `chars` spells the text `word`.
pub fn spells(chars: &Vec<char>, word: &str) -> (r: bool)
    ensures
        r == (chars@ == word@),
{
    let w = to_chars(word);
    same(chars, &w)
}

/// The position of the first `c` in `chars`.
pub fn position(chars: &Vec<char>, c: char) -> (r: Option<usize>)
    ensures
        match r {
            Some(i) => i < chars.len() && find(chars@, c) == Some(i as int),
            None => find(chars@, c) is None,
        },
{
    let mut i: usize = 0;
    while i < chars.len()
        invariant
            i <= chars.len(),
            forall|j: int| 0 <= j < i ==> chars@[j] != c,
        decreases chars.len() - i,
    {
        if chars[i] == c {
            proof {
                lemma_find_at(chars@, c, i as int);
            }
            return Some(i);
        }
        i += 1;
    }
    proof {
        lemma_find_none(chars@, c);
    }
    None
}

/// Cuts `chars` at its first `c`.
pub fn cut_once(chars: &Vec<char>, c: char) -> (r: Option<(Vec<char>, Vec<char>)>)
    ensures
        match r {
            Some((head, tail)) => split_once(chars@, c) == Some((head@, tail@)),
            None => split_once(chars@, c) is None,
        },
{
    match position(chars, c) {
        Some(i) => {
            let head = slice(chars, 0, i);
            let tail = slice(chars, i + 1, chars.len());
            Some((head, tail))
        },
        None => None,
    }
}

/// Cuts `chars` at every `sep`.
pub fn cut(chars: &Vec<char>, sep: char) -> (r: Vec<Vec<char>>)
    ensures
        views(r@) == split(chars@, sep),
{
    let mut out: Vec<Vec<char>> = Vec::new();
    let mut start: usize = 0;
    let mut i: usize = 0;
    proof {
        assert(chars@.skip(0) =~= chars@);
        assert(views(out@) + split(chars@, sep) =~= split(chars@, sep));
    }
    while i < chars.len()
        invariant
            start <= i <= chars.len(),
            forall|j: int| start <= j < i ==> chars@[j] != sep,
            split(chars@, sep) == views(out@) + split(chars@.skip(start as int), sep),
        decreases chars.len() - i,
    {
        if chars[i] == sep {
            let piece = slice(chars, start, i);
            proof {
                let rest = chars@.skip(start as int);
                lemma_find_at(rest, sep, i - start);
                assert(rest.take(i - start) =~= piece@);
                assert(rest.skip(i - start + 1) =~= chars@.skip(i + 1));
                assert(views(out@.push(piece)) =~= views(out@) + seq![piece@]);
            }
            out.push(piece);
            start = i + 1;
        }
        i += 1;
    }
    let piece = slice(chars, start, chars.len());
    proof {
        let rest = chars@.skip(start as int);
        assert(!rest.contains(sep));
        lemma_find_none(rest, sep);
        assert(rest =~= piece@);
        assert(views(out@.push(piece)) =~= views(out@) + seq![piece@]);
    }
    out.push(piece);
    out
}

/// Whether `chars` begins with the text `prefix`.
pub fn has_prefix(chars: &Vec<char>, prefix: &str) -> (r: bool)
    ensures
        r == starts_with(chars@, prefix@),
{
    let p = to_chars(prefix);
    if p.len() > chars.len() {
        return false;
    }
    let head = slice(chars, 0, p.len());
    same(&head, &p)
}

/// Whether `chars` ends with the text `suffix`.
pub fn has_suffix(chars: &Vec<char>, suffix: &str) -> (r: bool)
    ensures
        r == ends_with(chars@, suffix@),
{
    let p = to_chars(suffix);
    if p.len() > chars.len() {
        return false;
    }
    let tail = slice(chars, chars.len() - p.len(), chars.len());
    same(&tail, &p)
}

/// Whether `c` occurs in `chars`.
pub fn holds(chars: &Vec<char>, c: char) -> (r: bool)
    ensures
        r == chars@.contains(c),
{
    proof {
        lemma_find_is_first(chars@, c);
    }
    position(chars, c).is_some()
}

/// `out` followed by the characters of `more`.
pub fn append(out: &mut Vec<char>, more: &Vec<char>)
    ensures
        final(out)@ == old(out)@ + more@,
{
    let mut i: usize = 0;
    while i < more.len()
        invariant
            i <= more.len(),
            out@ =~= old(out)@ + more@.take(i as int),
        decreases more.len() - i,
    {
        out.push(more[i]);
        i += 1;
    }
    assert(more@.take(more@.len() as int) =~= more@);
}

/// Writes `pieces` one after the other with `sep` between them.
pub fn join_all(pieces: &Vec<Vec<char>>, sep: char) -> (r: Vec<char>)
    ensures
        r@ == join(views(pieces@), sep),
{
    let mut out: Vec<char> = Vec::new();
    let mut i: usize = 0;
    assert(views(pieces@).take(0) =~= Seq::<Seq<char>>::empty());
    while i < pieces.len()
        invariant
            i <= pieces.len(),
            out@ == join(views(pieces@).take(i as int), sep),
        decreases pieces.len() - i,
    {
        proof {
            lemma_join_push(views(pieces@).take(i as int), pieces@[i as int]@, sep);
            assert(views(pieces@).take(i + 1) =~= views(pieces@).take(i as int).push(
                pieces@[i as int]@,
            ));
        }
        if i > 0 {
            out.push(sep);
        }
        append(&mut out, &pieces[i]);
        i += 1;
    }
    assert(views(pieces@).take(pieces@.len() as int) =~= views(pieces@));
    out
}

/// Joining one more piece appends the separator and the piece.
pub proof fn lemma_join_push(pieces: Seq<Seq<char>>, piece: Seq<char>, sep: char)
    ensures
        join(pieces.push(piece), sep) =~= if pieces.len() == 0 {
            piece
        } else {
            join(pieces, sep) + seq![sep] + piece
        },
    decreases pieces.len(),
{
    let all = pieces.push(piece);
    if pieces.len() == 0 {
    } else if pieces.len() == 1 {
        assert(all.drop_first() =~= seq![piece]);
        assert(join(all.drop_first(), sep) =~= piece);
    } else {
        assert(all.drop_first() =~= pieces.drop_first().push(piece));
        lemma_join_push(pieces.drop_first(), piece, sep);
    }
}

/// A text cut at a character that its head lacks falls into that head and the rest.
pub proof fn lemma_split_once_at(head: Seq<char>, c: char, tail: Seq<char>)
    requires
        !head.contains(c),
    ensures
        split_once(head + seq![c] + tail, c) == Some((head, tail)),
{
    let s = head + seq![c] + tail;
    let n = head.len() as int;
    assert forall|j: int| 0 <= j < n implies s[j] != c by {
        assert(s[j] == head[j]);
    }
    assert(is_first(s, c, n));
    lemma_find_at(s, c, n);
    assert(s.take(n) =~= head);
    assert(s.skip(n + 1) =~= tail);
}

/// A text that lacks the separator is its own single piece.
pub proof fn lemma_split_whole(s: Seq<char>, sep: char)
    requires
        !s.contains(sep),
    ensures
        split(s, sep) == seq![s],
{
    lemma_find_none(s, sep);
}

/// Cutting undoes joining, where no piece holds the separator.
pub proof fn lemma_split_join(pieces: Seq<Seq<char>>, sep: char)
    requires
        pieces.len() > 0,
        forall|i: int| 0 <= i < pieces.len() ==> !(#[trigger] pieces[i]).contains(sep),
    ensures
        split(join(pieces, sep), sep) == pieces,
    decreases pieces.len(),
{
    if pieces.len() == 1 {
        lemma_split_whole(pieces[0], sep);
        assert(seq![pieces[0]] =~= pieces);
    } else {
        let rest = pieces.drop_first();
        let s = join(pieces, sep);
        assert forall|i: int| 0 <= i < rest.len() implies !(#[trigger] rest[i]).contains(sep) by {
            assert(rest[i] == pieces[i + 1]);
        }
        lemma_split_join(rest, sep);
        lemma_split_once_at(pieces[0], sep, join(rest, sep));
        let n = pieces[0].len() as int;
        assert(find(s, sep) == Some(n)) by {
            lemma_find_is_first(s, sep);
            assert(s.take(find(s, sep)->Some_0).len() == n);
        }
        assert(s.take(n) =~= pieces[0]);
        assert(s.skip(n + 1) =~= join(rest, sep));
        assert(seq![pieces[0]] + rest =~= pieces);
    }
}

/// Two texts that lack a character lack it when written one after the other.
pub proof fn lemma_concat_lacks(a: Seq<char>, b: Seq<char>, c: char)
    requires
        !a.contains(c),
        !b.contains(c),
    ensures
        !(a + b).contains(c),
{
    let s = a + b;
    if s.contains(c) {
        let i = choose|i: int| 0 <= i < s.len() && s[i] == c;
        if i < a.len() {
            assert(a[i] == c);
        } else {
            assert(b[i - a.len()] == c);
        }
    }
}

/// Pieces that lack a character lack it when joined by another one.
pub proof fn lemma_join_lacks(pieces: Seq<Seq<char>>, sep: char, c: char)
    requires
        sep != c,
        forall|i: int| 0 <= i < pieces.len() ==> !(#[trigger] pieces[i]).contains(c),
    ensures
        !join(pieces, sep).contains(c),
    decreases pieces.len(),
{
    if pieces.len() == 0 {
    } else if pieces.len() == 1 {
    } else {
        let rest = pieces.drop_first();
        assert forall|i: int| 0 <= i < rest.len() implies !(#[trigger] rest[i]).contains(c) by {
            assert(rest[i] == pieces[i + 1]);
        }
        lemma_join_lacks(rest, sep, c);
        assert(!seq![sep].contains(c));
        lemma_concat_lacks(pieces[0], seq![sep], c);
        lemma_concat_lacks(pieces[0] + seq![sep], join(rest, sep), c);
    }
}

} // verus!
