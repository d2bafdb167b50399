//! Character-level text operations used by the appenders: prefix tests,
//! `;`-separated target lists and decimal rendering of numbers.
use vstd::prelude::*;

verus! {

/// The characters of a string, one by one.
pub fn chars_of(s: &str) -> (v: Vec<char>)
    ensures
        v@ == s@,
{
    broadcast use vstd::string::group_string_axioms;
    let mut v: Vec<char> = Vec::new();
    for c in it: s.chars()
        invariant
            it.seq() == s@,
            v@ == it.seq().take(it.index() as int),
    {
        v.push(c);
    }
    v
}

} // verus!

verus! {

/// `prefix` is an initial part of `s`.
pub open spec fn is_prefix(prefix: Seq<char>, s: Seq<char>) -> bool {
    prefix.len() <= s.len() && s.subrange(0, prefix.len() as int) == prefix
}

/// Whether `s` begins with `prefix`.
pub fn starts_with(s: &str, prefix: &str) -> (b: bool)
    ensures
        b == is_prefix(prefix@, s@),
{
    let sv = chars_of(s);
    let pv = chars_of(prefix);
    if pv.len() > sv.len() {
        return false;
    }
    let mut i: usize = 0;
    while i < pv.len()
        invariant
            sv@ == s@,
            pv@ == prefix@,
            pv.len() <= sv.len(),
            i <= pv.len(),
            forall|j: int| 0 <= j < i ==> sv@[j] == pv@[j],
        decreases pv.len() - i,
    {
        if sv[i] != pv[i] {
            assert(sv@.subrange(0, pv@.len() as int)[i as int] != pv@[i as int]);
            return false;
        }
        i = i + 1;
    }
    assert(sv@.subrange(0, pv@.len() as int) =~= pv@);
    true
}

/// `piece` stands in `list` at index `i` as a whole `;`-separated piece: it
/// begins at the start or right after a `;`, and ends at the end or right
/// before a `;`.
pub open spec fn piece_at(list: Seq<char>, piece: Seq<char>, i: int) -> bool {
    &&& 0 <= i
    &&& i + piece.len() <= list.len()
    &&& list.subrange(i, i + piece.len()) == piece
    &&& (i == 0 || list[i - 1] == ';')
    &&& (i + piece.len() == list.len() || list[i + piece.len()] == ';')
}

/// `piece` is one of the pieces into which `list` falls when it is split at
/// every `;`.
pub open spec fn is_split_piece(list: Seq<char>, piece: Seq<char>) -> bool {
    !piece.contains(';') && exists|i: int| piece_at(list, piece, i)
}

/// Whether `list[i .. i + piece.len()]` equals `piece`.
fn equal_at(list: &Vec<char>, piece: &Vec<char>, i: usize) -> (b: bool)
    requires
        i + piece@.len() <= list@.len(),
    ensures
        b == (list@.subrange(i as int, i + piece@.len()) == piece@),
{
    let ln = list.len();
    let mut j: usize = 0;
    while j < piece.len()
        invariant
            ln == list@.len(),
            i + piece@.len() <= list@.len(),
            j <= piece@.len(),
            forall|k: int| 0 <= k < j ==> list@[i + k] == piece@[k],
        decreases piece.len() - j,
    {
        if list[i + j] != piece[j] {
            assert(list@.subrange(i as int, i + piece@.len())[j as int] != piece@[j as int]);
            return false;
        }
        j = j + 1;
    }
    assert(list@.subrange(i as int, i + piece@.len()) =~= piece@);
    true
}

/// Whether a character sequence holds a `;`.
fn holds_separator(v: &Vec<char>) -> (b: bool)
    ensures
        b == v@.contains(';'),
{
    let mut j: usize = 0;
    while j < v.len()
        invariant
            j <= v@.len(),
            forall|k: int| 0 <= k < j ==> v@[k] != ';',
        decreases v.len() - j,
    {
        if v[j] == ';' {
            assert(v@[j as int] == ';');
            return true;
        }
        j = j + 1;
    }
    false
}

/// Whether `piece` is one of the pieces of `list` split at every `;`.
pub fn has_split_piece(list: &str, piece: &str) -> (b: bool)
    ensures
        b == is_split_piece(list@, piece@),
{
    let lv = chars_of(list);
    let pv = chars_of(piece);
    if holds_separator(&pv) {
        return false;
    }
    let n = lv.len();
    let m = pv.len();
    if m > n {
        return false;
    }
    let last = n - m;
    let mut i: usize = 0;
    loop
        invariant
            lv@ == list@,
            pv@ == piece@,
            !piece@.contains(';'),
            n == lv@.len(),
            m == pv@.len(),
            last == n - m,
            i <= last,
            forall|k: int| 0 <= k < i ==> !piece_at(list@, piece@, k),
        decreases last - i,
    {
        let starts = i == 0 || lv[i - 1] == ';';
        let ends = i + m == n || lv[i + m] == ';';
        if starts && ends && equal_at(&lv, &pv, i) {
            assert(piece_at(list@, piece@, i as int));
            return true;
        }
        assert(!piece_at(list@, piece@, i as int));
        if i == last {
            assert forall|k: int| !piece_at(list@, piece@, k) by {
                if 0 <= k <= i {
                }
            }
            return false;
        }
        i = i + 1;
    }
}

/// The digit character of a number below ten.
pub open spec fn digit_char(d: nat) -> char {
    if d == 0 { '0' }
    else if d == 1 { '1' }
    else if d == 2 { '2' }
    else if d == 3 { '3' }
    else if d == 4 { '4' }
    else if d == 5 { '5' }
    else if d == 6 { '6' }
    else if d == 7 { '7' }
    else if d == 8 { '8' }
    else { '9' }
}

/// The decimal notation of a number, without leading zeros.
pub open spec fn decimal(n: nat) -> Seq<char>
    decreases n,
{
    if n < 10 {
        seq![digit_char(n)]
    } else {
        decimal(n / 10).push(digit_char(n % 10))
    }
}

/// The number that a string of decimal digits stands for, read from the
/// most significant digit on.
pub open spec fn digits_value(s: Seq<char>) -> int
    decreases s.len(),
{
    if s.len() == 0 {
        0
    } else {
        digits_value(s.drop_last()) * 10 + (s.last() as int - '0' as int)
    }
}

/// A character among `0` to `9`.
pub open spec fn is_digit(c: char) -> bool {
    '0' as int <= c as int <= '9' as int
}

/// The digit character of `d` is the character whose code lies `d` past
/// that of `0`.
pub proof fn lemma_digit_char(d: nat)
    requires
        d < 10,
    ensures
        digit_char(d) as int == '0' as int + d,
        is_digit(digit_char(d)),
{
}

/// The decimal notation of a number is a non-empty string of digits with no
/// leading zero (but for zero itself) that reads back as the number.
pub proof fn lemma_decimal_reads_back(n: nat)
    ensures
        decimal(n).len() >= 1,
        forall|i: int| 0 <= i < decimal(n).len() ==> #[trigger] is_digit(decimal(n)[i]),
        digits_value(decimal(n)) == n,
        decimal(n)[0] == '0' ==> n == 0,
    decreases n,
{
    if n < 10 {
        lemma_digit_char(n);
        assert(decimal(n).drop_last() =~= Seq::<char>::empty());
        assert(digits_value(Seq::<char>::empty()) == 0);
        assert(digits_value(decimal(n)) == digits_value(decimal(n).drop_last()) * 10
            + (decimal(n).last() as int - '0' as int));
    } else {
        let q: nat = n / 10;
        let r: nat = n % 10;
        lemma_decimal_reads_back(q);
        lemma_digit_char(r);
        let s = decimal(n);
        assert(s == decimal(q).push(digit_char(r)));
        assert(s.drop_last() =~= decimal(q));
        assert forall|i: int| 0 <= i < s.len() implies #[trigger] is_digit(s[i]) by {
            if i < s.len() - 1 {
                assert(s[i] == decimal(q)[i]);
            }
        }
        assert(q * 10 + r == n) by (nonlinear_arith)
            requires q == n / 10, r == n % 10;
        assert(digits_value(s) == digits_value(s.drop_last()) * 10 + (s.last() as int - '0' as int));
        assert(q >= 1);
        assert(s[0] == decimal(q)[0]);
    }
}

/// The one-character string of a digit.
fn digit_str(d: u32) -> (s: &'static str)
    requires
        d < 10,
    ensures
        s@ == seq![digit_char(d as nat)],
        s@.len() == 1,
        s@[0] as int == '0' as int + d,
{
    if d == 0 {
        proof { reveal_strlit("0"); }
        "0"
    } else if d == 1 {
        proof { reveal_strlit("1"); }
        "1"
    } else if d == 2 {
        proof { reveal_strlit("2"); }
        "2"
    } else if d == 3 {
        proof { reveal_strlit("3"); }
        "3"
    } else if d == 4 {
        proof { reveal_strlit("4"); }
        "4"
    } else if d == 5 {
        proof { reveal_strlit("5"); }
        "5"
    } else if d == 6 {
        proof { reveal_strlit("6"); }
        "6"
    } else if d == 7 {
        proof { reveal_strlit("7"); }
        "7"
    } else if d == 8 {
        proof { reveal_strlit("8"); }
        "8"
    } else {
        proof { reveal_strlit("9"); }
        "9"
    }
}

/// Appends the decimal notation of `n` to `out`.
pub fn push_decimal(out: &mut String, n: u32)
    ensures
        final(out)@ == old(out)@ + decimal(n as nat),
    decreases n,
{
    if n >= 10 {
        push_decimal(out, n / 10);
    }
    out.append(digit_str(n % 10));
    assert(decimal(n as nat) == if n < 10 { seq![digit_char(n as nat)] } else {
        decimal((n / 10) as nat).push(digit_char((n % 10) as nat))
    });
}

} // verus!

verus! {

/// Whether two texts are equal.
pub fn same_text(a: &str, b: &str) -> (r: bool)
    ensures
        r == (a@ == b@),
{
    let av = chars_of(a);
    let bv = chars_of(b);
    if av.len() != bv.len() {
        return false;
    }
    let n = av.len();
    let mut i: usize = 0;
    while i < n
        invariant
            av@ == a@,
            bv@ == b@,
            n == av@.len(),
            n == bv@.len(),
            i <= n,
            forall|k: int| 0 <= k < i ==> av@[k] == bv@[k],
        decreases n - i,
    {
        if av[i] != bv[i] {
            return false;
        }
        i = i + 1;
    }
    assert(av@ =~= bv@);
    true
}

} // verus!

verus! {

/// Pieces of text joined into one, with a `;` between neighbours.
pub open spec fn join_pieces(pieces: Seq<Seq<char>>) -> Seq<char>
    decreases pieces.len(),
{
    if pieces.len() == 0 {
        Seq::empty()
    } else if pieces.len() == 1 {
        pieces[0]
    } else {
        join_pieces(pieces.drop_last()) + seq![';'] + pieces.last()
    }
}

/// A piece that stands in a text stands there too when more text follows
/// after a `;`.
proof fn lemma_piece_at_extends(list: Seq<char>, tail: Seq<char>, piece: Seq<char>, i: int)
    requires
        piece_at(list, piece, i),
    ensures
        piece_at(list + seq![';'] + tail, piece, i),
{
    let longer = list + seq![';'] + tail;
    assert(longer.subrange(i, i + piece.len()) =~= list.subrange(i, i + piece.len()));
    if i > 0 {
        assert(longer[i - 1] == list[i - 1]);
    }
    if i + piece.len() < list.len() {
        assert(longer[i + piece.len()] == list[i + piece.len()]);
    } else {
        assert(longer[i + piece.len()] == ';');
    }
}

/// A target written as several targets joined with `;` reaches each of them:
/// every piece without a `;` is one of the pieces of the joined text.
pub proof fn lemma_joined_targets_are_pieces(pieces: Seq<Seq<char>>, k: int)
    requires
        0 <= k < pieces.len(),
        forall|j: int| 0 <= j < pieces.len() ==> !(#[trigger] pieces[j]).contains(';'),
    ensures
        is_split_piece(join_pieces(pieces), pieces[k]),
    decreases pieces.len(),
{
    let joined = join_pieces(pieces);
    if pieces.len() == 1 {
        assert(joined.subrange(0, pieces[0].len() as int) =~= pieces[0]);
        assert(piece_at(joined, pieces[k], 0));
    } else {
        let front = pieces.drop_last();
        let head = join_pieces(front);
        assert(joined == head + seq![';'] + pieces.last());
        if k == pieces.len() - 1 {
            let i: int = head.len() as int + 1;
            assert(joined.subrange(i, i + pieces[k].len()) =~= pieces[k]);
            assert(joined[i - 1] == ';');
            assert(piece_at(joined, pieces[k], i));
        } else {
            assert(front[k] == pieces[k]);
            assert forall|j: int| 0 <= j < front.len() implies !(#[trigger] front[j]).contains(';') by {
                assert(front[j] == pieces[j]);
            }
            lemma_joined_targets_are_pieces(front, k);
            let i = choose|i: int| piece_at(head, pieces[k], i);
            lemma_piece_at_extends(head, pieces.last(), pieces[k], i);
        }
    }
}

} // verus!
