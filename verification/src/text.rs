//! Text as sequences of characters: the string operations that the rest of
//! the crate is written with, each with an exact meaning over `Seq<char>`.

use vstd::prelude::*;
use vstd::string::StrSliceExecFns;

verus! {

/// `String::push` appends one character and keeps what was there.
pub assume_specification[ String::push ](s: &mut String, c: char)
    ensures
        final(s)@ == old(s)@.push(c),
;

/// A set of characters to cut from the ends of a text.
pub enum CharClass {
    WhiteSpace,
    Only(char),
}

/// Whether a code point has the Unicode property `White_Space`.
pub open spec fn is_white_space(c: char) -> bool {
    let n = c as u32;
    ||| 0x9 <= n <= 0xd
    ||| n == 0x20
    ||| n == 0x85
    ||| n == 0xa0
    ||| n == 0x1680
    ||| 0x2000 <= n <= 0x200a
    ||| n == 0x2028
    ||| n == 0x2029
    ||| n == 0x202f
    ||| n == 0x205f
    ||| n == 0x3000
}

impl CharClass {
    pub open spec fn holds(self, c: char) -> bool {
        match self {
            CharClass::WhiteSpace => is_white_space(c),
            CharClass::Only(only) => c == only,
        }
    }

    fn test(&self, c: char) -> (r: bool)
        ensures
            r == self.holds(c),
    {
        match self {
            CharClass::WhiteSpace => white_space(c),
            CharClass::Only(only) => c == *only,
        }
    }
}

fn white_space(c: char) -> (r: bool)
    ensures
        r == is_white_space(c),
{
    let n: u32 = c as u32;
    (0x9 <= n && n <= 0xd) || n == 0x20 || n == 0x85 || n == 0xa0 || n == 0x1680 || (0x2000 <= n && n
        <= 0x200a) || n == 0x2028 || n == 0x2029 || n == 0x202f || n == 0x205f || n == 0x3000
}

/// `s` without its longest prefix of characters in `class`.
pub open spec fn strip_front(s: Seq<char>, class: CharClass) -> Seq<char>
    decreases s.len(),
{
    if s.len() > 0 && class.holds(s[0]) {
        strip_front(s.drop_first(), class)
    } else {
        s
    }
}

/// `s` without its longest suffix of characters in `class`.
pub open spec fn strip_back(s: Seq<char>, class: CharClass) -> Seq<char>
    decreases s.len(),
{
    if s.len() > 0 && class.holds(s.last()) {
        strip_back(s.drop_last(), class)
    } else {
        s
    }
}

/// `s` cut at both ends.
pub open spec fn strip_both(s: Seq<char>, class: CharClass) -> Seq<char> {
    strip_back(strip_front(s, class), class)
}

/// `s` without leading and trailing white space.
pub open spec fn trimmed(s: Seq<char>) -> Seq<char> {
    strip_both(s, CharClass::WhiteSpace)
}

/// The pieces of `s` between the occurrences of `sep`; one piece more than
/// there are separators.
pub open spec fn pieces(s: Seq<char>, sep: char) -> Seq<Seq<char>>
    decreases s.len(),
{
    if s.len() == 0 {
        seq![Seq::empty()]
    } else {
        let before = pieces(s.drop_last(), sep);
        if s.last() == sep {
            before.push(Seq::empty())
        } else {
            before.drop_last().push(before.last().push(s.last()))
        }
    }
}

/// The maximal runs of characters that are not white space.
pub open spec fn words(s: Seq<char>) -> Seq<Seq<char>>
    decreases s.len(),
{
    if s.len() == 0 {
        Seq::empty()
    } else {
        let before = words(s.drop_last());
        if is_white_space(s.last()) {
            before
        } else if s.len() == 1 || is_white_space(s[s.len() - 2]) {
            before.push(seq![s.last()])
        } else {
            before.drop_last().push(before.last().push(s.last()))
        }
    }
}

/// A line that a newline ended, without the carriage return before it.
pub open spec fn without_return(line: Seq<char>) -> Seq<char> {
    if line.len() > 0 && line.last() == '\r' {
        line.drop_last()
    } else {
        line
    }
}

/// The lines of `s`. A line ends at `\n` or `\r\n`; what follows the last line
/// end is a line only where it is not empty.
pub open spec fn lines(s: Seq<char>) -> Seq<Seq<char>> {
    let parts = pieces(s, '\n');
    let ended = parts.drop_last().map_values(|line: Seq<char>| without_return(line));
    if parts.last().len() == 0 {
        ended
    } else {
        ended.push(parts.last())
    }
}

/// The place of the first `c` in `s`, or the length of `s`.
pub open spec fn first_place(s: Seq<char>, c: char) -> int
    decreases s.len(),
{
    if s.len() == 0 || s[0] == c {
        0
    } else {
        1 + first_place(s.drop_first(), c)
    }
}

/// What stands before and after the first `sep`.
pub open spec fn halves(s: Seq<char>, sep: char) -> Option<(Seq<char>, Seq<char>)> {
    let at = first_place(s, sep);
    if at < s.len() {
        Some((s.take(at), s.skip(at + 1)))
    } else {
        None
    }
}

/// Whether `needle` stands in `s` at `at`.
pub open spec fn stands_at(s: Seq<char>, needle: Seq<char>, at: int) -> bool {
    0 <= at && at + needle.len() <= s.len() && s.subrange(at, at + needle.len()) == needle
}

/// Whether `needle` stands somewhere in `s`.
pub open spec fn holds_text(s: Seq<char>, needle: Seq<char>) -> bool {
    exists|at: int| stands_at(s, needle, at)
}

/// The texts of `parts` with `sep` between each two.
pub open spec fn joined(parts: Seq<Seq<char>>, sep: Seq<char>) -> Seq<char>
    decreases parts.len(),
{
    if parts.len() == 0 {
        Seq::empty()
    } else if parts.len() == 1 {
        parts[0]
    } else {
        joined(parts.drop_last(), sep) + sep + parts.last()
    }
}

/// The views of a sequence of strings.
pub open spec fn texts(parts: Seq<String>) -> Seq<Seq<char>> {
    parts.map_values(|part: String| part@)
}

/// The decimal digit that stands for `d`.
pub open spec fn digit(d: nat) -> char {
    (0x30 + d) as char
}

/// `n` in decimal, without leading zeros.
pub open spec fn decimal(n: nat) -> Seq<char>
    decreases n,
{
    if n < 10 {
        seq![digit(n)]
    } else {
        decimal(n / 10).push(digit(n % 10))
    }
}

pub open spec fn is_digit(c: char) -> bool {
    '0' <= c <= '9'
}

/// The number that a run of decimal digits stands for.
pub open spec fn digits_value(s: Seq<char>) -> nat
    decreases s.len(),
{
    if s.len() == 0 {
        0
    } else {
        10 * digits_value(s.drop_last()) + (s.last() as nat - 0x30) as nat
    }
}

/// Whether `s` holds decimal digits only.
pub open spec fn all_digits(s: Seq<char>) -> bool {
    forall|i: int| 0 <= i < s.len() ==> is_digit(#[trigger] s[i])
}

/// `s` without one leading plus sign.
pub open spec fn without_plus(s: Seq<char>) -> Seq<char> {
    if s.len() > 0 && s[0] == '+' {
        s.drop_first()
    } else {
        s
    }
}

/// The unsigned number that `s` spells: decimal digits, at least one, after an
/// optional plus sign, and no more than `max`.
pub open spec fn parsed_number(s: Seq<char>, max: nat) -> Option<nat> {
    let digits = without_plus(s);
    if digits.len() > 0 && all_digits(digits) && digits_value(digits) <= max {
        Some(digits_value(digits))
    } else {
        None
    }
}

/// The characters of a text.
pub fn chars(s: &str) -> (v: Vec<char>)
    ensures
        v@ == s@,
{
    let mut v: Vec<char> = Vec::new();
    for c in it: s.chars()
        invariant
            v@ == it.seq().take(it.index() as int),
    {
        v.push(c);
    }
    v
}

/// Whether two texts are equal.
pub fn same(a: &str, b: &str) -> (r: bool)
    ensures
        r == (a@ == b@),
{
    a.to_owned() == b.to_owned()
}

/// Whether `s` begins with `prefix`.
pub fn starts_with(s: &str, prefix: &str) -> (r: bool)
    ensures
        r == prefix@.is_prefix_of(s@),
{
    let whole = chars(s);
    let front = chars(prefix);
    if front.len() > whole.len() {
        return false;
    }
    let mut i: usize = 0;
    while i < front.len()
        invariant
            i <= front.len() <= whole.len(),
            whole@ == s@,
            front@ == prefix@,
            forall|j: int| 0 <= j < i ==> front@[j] == whole@[j],
        decreases front.len() - i,
    {
        if front[i] != whole[i] {
            return false;
        }
        i += 1;
    }
    true
}

proof fn strip_front_skips(s: Seq<char>, class: CharClass, n: int)
    requires
        0 <= n <= s.len(),
        forall|j: int| 0 <= j < n ==> class.holds(#[trigger] s[j]),
        n == s.len() || !class.holds(s[n]),
    ensures
        strip_front(s, class) == s.skip(n),
    decreases n,
{
    if n > 0 {
        assert(class.holds(s[0]));
        let rest = s.drop_first();
        assert forall|j: int| 0 <= j < n - 1 implies class.holds(#[trigger] rest[j]) by {
            assert(rest[j] == s[j + 1]);
        }
        if n < s.len() {
            assert(rest[n - 1] == s[n]);
        }
        strip_front_skips(rest, class, n - 1);
        assert(rest.skip(n - 1) =~= s.skip(n));
    } else {
        assert(s.skip(0) =~= s);
    }
}

proof fn strip_back_takes(s: Seq<char>, class: CharClass, n: int)
    requires
        0 <= n <= s.len(),
        forall|j: int| n <= j < s.len() ==> class.holds(#[trigger] s[j]),
        n == 0 || !class.holds(s[n - 1]),
    ensures
        strip_back(s, class) == s.take(n),
    decreases s.len() - n,
{
    if n < s.len() {
        assert(class.holds(s.last()));
        let rest = s.drop_last();
        strip_back_takes(rest, class, n);
        assert(rest.take(n) =~= s.take(n));
    } else {
        assert(s.take(n) =~= s);
    }
}

/// What is left after a cut does not end in what was cut.
pub proof fn strip_back_ends_otherwise(s: Seq<char>, class: CharClass)
    ensures
        strip_back(s, class).len() == 0 || !class.holds(strip_back(s, class).last()),
    decreases s.len(),
{
    if s.len() > 0 && class.holds(s.last()) {
        strip_back_ends_otherwise(s.drop_last(), class);
    }
}

/// `s` without its longest suffix in `class`, and before that without its
/// longest prefix in `class` where `front` says so.
fn strip<'a>(s: &'a str, class: CharClass, front: bool) -> (r: &'a str)
    ensures
        r@ == if front {
            strip_both(s@, class)
        } else {
            strip_back(s@, class)
        },
{
    let all = chars(s);
    let mut from: usize = 0;
    if front {
        while from < all.len() && class.test(all[from])
            invariant
                from <= all.len(),
                forall|j: int| 0 <= j < from ==> class.holds(#[trigger] all@[j]),
            ensures
                from == all.len() || !class.holds(all@[from as int]),
            decreases all.len() - from,
        {
            from += 1;
        }
        proof {
            strip_front_skips(s@, class, from as int);
        }
    } else {
        assert(s@.skip(0) =~= s@);
    }
    let ghost cut = s@.skip(from as int);
    let mut to: usize = all.len();
    while to > from && class.test(all[to - 1])
        invariant
            from <= to <= all.len(),
            all@ == s@,
            forall|j: int| to <= j < all.len() ==> class.holds(#[trigger] all@[j]),
        ensures
            to == from || !class.holds(all@[to - 1]),
        decreases to,
    {
        to -= 1;
    }
    proof {
        assert forall|j: int| to - from <= j < cut.len() implies class.holds(#[trigger] cut[j]) by {
            assert(cut[j] == all@[j + from]);
        }
        strip_back_takes(cut, class, to - from);
        assert(cut.take(to - from) =~= s@.subrange(from as int, to as int));
    }
    s.substring_char(from, to)
}

/// `s` without leading and trailing white space.
pub fn trim(s: &str) -> (r: &str)
    ensures
        r@ == trimmed(s@),
{
    strip(s, CharClass::WhiteSpace, true)
}

/// `s` without leading and trailing `c`.
pub fn trim_matches(s: &str, c: char) -> (r: &str)
    ensures
        r@ == strip_both(s@, CharClass::Only(c)),
{
    strip(s, CharClass::Only(c), true)
}

/// `s` without trailing `c`.
pub fn trim_end_matches(s: &str, c: char) -> (r: &str)
    ensures
        r@ == strip_back(s@, CharClass::Only(c)),
{
    strip(s, CharClass::Only(c), false)
}

/// The pieces of `s` between the occurrences of `sep`.
pub fn split(s: &str, sep: char) -> (parts: Vec<String>)
    ensures
        texts(parts@) == pieces(s@, sep),
{
    let all = chars(s);
    let mut parts: Vec<String> = Vec::new();
    let mut piece: String = String::new();
    let mut i: usize = 0;
    assert(all@.take(0) =~= Seq::empty());
    assert(texts(parts@).push(piece@) =~= pieces(all@.take(0), sep));
    while i < all.len()
        invariant
            i <= all.len(),
            texts(parts@).push(piece@) == pieces(all@.take(i as int), sep),
        decreases all.len() - i,
    {
        let c = all[i];
        let ghost seen = all@.take(i as int);
        let ghost next = all@.take(i + 1);
        assert(next.drop_last() =~= seen);
        assert(next.last() == c);
        let ghost before = pieces(seen, sep);
        assert(before.drop_last() =~= texts(parts@));
        if c == sep {
            let ghost done = parts@;
            parts.push(piece);
            piece = String::new();
            assert(texts(parts@) =~= before);
        } else {
            piece.push(c);
        }
        assert(texts(parts@).push(piece@) =~= pieces(next, sep));
        i += 1;
    }
    assert(all@.take(i as int) =~= s@);
    parts.push(piece);
    assert(texts(parts@) =~= pieces(s@, sep));
    parts
}

/// The runs of characters of `s` that are not white space.
pub fn split_whitespace(s: &str) -> (found: Vec<String>)
    ensures
        texts(found@) == words(s@),
{
    let all = chars(s);
    let mut found: Vec<String> = Vec::new();
    let mut word: String = String::new();
    let mut i: usize = 0;
    assert(all@.take(0) =~= Seq::empty());
    while i < all.len()
        invariant
            i <= all.len(),
            word@.len() > 0 <==> i > 0 && !is_white_space(all@[i - 1]),
            words(all@.take(i as int)) =~= if word@.len() > 0 {
                texts(found@).push(word@)
            } else {
                texts(found@)
            },
        decreases all.len() - i,
    {
        let c = all[i];
        let ghost seen = all@.take(i as int);
        let ghost next = all@.take(i + 1);
        let ghost before = words(seen);
        assert(next.drop_last() =~= seen);
        assert(next.last() == c);
        if i > 0 {
            assert(next[next.len() - 2] == all@[i - 1]);
        }
        if white_space(c) {
            if !word.as_str().is_empty() {
                found.push(word);
                word = String::new();
                assert(texts(found@) =~= before);
            }
        } else {
            let ghost old_word = word@;
            word.push(c);
            proof {
                if old_word.len() > 0 {
                    assert(before.drop_last() =~= texts(found@));
                    assert(before.last() == old_word);
                } else {
                    assert(word@ =~= seq![c]);
                }
            }
        }
        i += 1;
    }
    assert(all@.take(i as int) =~= s@);
    if !word.as_str().is_empty() {
        found.push(word);
    }
    assert(texts(found@) =~= words(s@));
    found
}

/// There is always a piece, even of an empty text.
pub proof fn pieces_never_empty(s: Seq<char>, sep: char)
    ensures
        pieces(s, sep).len() > 0,
    decreases s.len(),
{
    if s.len() > 0 {
        pieces_never_empty(s.drop_last(), sep);
    }
}

/// Splitting loses nothing: the pieces, joined again, are the text.
pub proof fn pieces_joined_again(s: Seq<char>, sep: char)
    ensures
        joined(pieces(s, sep), seq![sep]) == s,
    decreases s.len(),
{
    if s.len() > 0 {
        let init = s.drop_last();
        let before = pieces(init, sep);
        pieces_never_empty(init, sep);
        pieces_joined_again(init, sep);
        let now = pieces(s, sep);
        if s.last() == sep {
            assert(now.drop_last() =~= before);
            assert(joined(now, seq![sep]) =~= s);
        } else {
            assert(now.drop_last() =~= before.drop_last());
            if before.len() == 1 {
                assert(joined(before, seq![sep]) == before[0]);
                assert(now.len() == 1 && now[0] == before[0].push(s.last()));
                assert(now[0] =~= s);
            } else {
                let front = joined(before.drop_last(), seq![sep]) + seq![sep];
                assert(joined(before, seq![sep]) == front + before.last());
                assert(now.last() == before.last().push(s.last()));
                assert(joined(now, seq![sep]) == front + now.last());
                assert(front + now.last() =~= (front + before.last()).push(s.last()));
                assert(init.push(s.last()) =~= s);
            }
        }
    }
}

proof fn pieces_of_longer(s: Seq<char>, rest: Seq<char>, sep: char)
    requires
        !rest.contains(sep),
    ensures
        pieces(s + rest, sep) == pieces(s, sep).drop_last().push(pieces(s, sep).last() + rest),
    decreases rest.len(),
{
    pieces_never_empty(s, sep);
    let before = pieces(s, sep);
    if rest.len() == 0 {
        assert(s + rest =~= s);
        assert(before.last() + rest =~= before.last());
        assert(before.drop_last().push(before.last()) =~= before);
    } else {
        let init = rest.drop_last();
        assert forall|i: int| 0 <= i < init.len() implies init[i] != sep by {
            assert(rest[i] == init[i]);
            assert(rest.contains(rest[i]));
        }
        pieces_of_longer(s, init, sep);
        assert(rest.contains(rest.last()));
        assert((s + rest).drop_last() =~= s + init);
        let now = pieces(s + init, sep);
        assert(now.drop_last() =~= before.drop_last());
        assert((before.last() + init).push(rest.last()) =~= before.last() + rest);
    }
}

/// The pieces of two texts with the separator between them are those of the one
/// and then those of the other.
pub proof fn pieces_of_both(a: Seq<char>, b: Seq<char>, sep: char)
    ensures
        pieces(a + seq![sep] + b, sep) == pieces(a, sep) + pieces(b, sep),
    decreases b.len(),
{
    pieces_never_empty(b, sep);
    let whole = a + seq![sep] + b;
    if b.len() == 0 {
        assert(whole.drop_last() =~= a);
        assert(pieces(whole, sep) =~= pieces(a, sep) + pieces(b, sep));
    } else {
        let init = b.drop_last();
        pieces_never_empty(init, sep);
        pieces_of_both(a, init, sep);
        assert(whole.drop_last() =~= a + seq![sep] + init);
        assert(whole.last() == b.last());
        assert(pieces(whole, sep) =~= pieces(a, sep) + pieces(b, sep));
    }
}

/// The lines of a text that goes on after a line end: those that the line end
/// completes, and then those of what follows.
pub proof fn lines_of_longer(a: Seq<char>, b: Seq<char>)
    ensures
        lines(a + seq!['\n'] + b) == pieces(a, '\n').map_values(
            |line: Seq<char>| without_return(line),
        ) + lines(b),
{
    pieces_of_both(a, b, '\n');
    pieces_never_empty(a, '\n');
    pieces_never_empty(b, '\n');
    let whole = a + seq!['\n'] + b;
    assert(pieces(whole, '\n').last() == pieces(b, '\n').last());
    assert(pieces(whole, '\n').drop_last() =~= pieces(a, '\n') + pieces(b, '\n').drop_last());
    assert(lines(whole) =~= pieces(a, '\n').map_values(|line: Seq<char>| without_return(line))
        + lines(b));
}

/// Joining loses nothing either: texts that do not hold the separator are the
/// pieces of what they are joined to.
pub proof fn joined_texts_are_the_pieces(parts: Seq<Seq<char>>, sep: char)
    requires
        parts.len() > 0,
        forall|i: int| 0 <= i < parts.len() ==> !(#[trigger] parts[i]).contains(sep),
    ensures
        pieces(joined(parts, seq![sep]), sep) == parts,
    decreases parts.len(),
{
    let last = parts.last();
    assert(!parts[parts.len() - 1].contains(sep));
    let front = if parts.len() == 1 {
        Seq::empty()
    } else {
        joined(parts.drop_last(), seq![sep]) + seq![sep]
    };
    assert(joined(parts, seq![sep]) =~= front + last);
    if parts.len() > 1 {
        let init = parts.drop_last();
        assert forall|i: int| 0 <= i < init.len() implies !(#[trigger] init[i]).contains(sep) by {
            assert(init[i] == parts[i]);
        }
        joined_texts_are_the_pieces(init, sep);
        assert(front.drop_last() =~= joined(init, seq![sep]));
        assert(pieces(front, sep) == init.push(Seq::empty()));
    }
    pieces_of_longer(front, last, sep);
    assert(Seq::<char>::empty() + last =~= last);
    assert(pieces(front, sep).drop_last() =~= parts.drop_last());
    assert(parts.drop_last().push(last) =~= parts);
}

/// No piece holds the separator.
pub proof fn pieces_hold_no_separator(s: Seq<char>, sep: char)
    ensures
        forall|i: int| 0 <= i < pieces(s, sep).len() ==> !(#[trigger] pieces(s, sep)[i]).contains(
            sep,
        ),
    decreases s.len(),
{
    if s.len() > 0 {
        let before = pieces(s.drop_last(), sep);
        pieces_never_empty(s.drop_last(), sep);
        pieces_hold_no_separator(s.drop_last(), sep);
        let now = pieces(s, sep);
        assert forall|i: int| 0 <= i < now.len() implies !(#[trigger] now[i]).contains(sep) by {
            if i < before.len() - 1 || (s.last() == sep && i < before.len()) {
                assert(now[i] == before[i]);
            } else if s.last() != sep {
                assert(now[i] == before[i].push(s.last()));
                if now[i].contains(sep) {
                    let k = choose|k: int| 0 <= k < now[i].len() && now[i][k] == sep;
                    assert(before[i][k] == sep);
                    assert(before[i].contains(sep));
                }
            }
        }
    }
}

/// The lines of `s`.
pub fn split_lines(s: &str) -> (found: Vec<String>)
    ensures
        texts(found@) == lines(s@),
{
    let parts = split(s, '\n');
    proof {
        pieces_never_empty(s@, '\n');
    }
    let ghost whole = pieces(s@, '\n');
    let last: usize = parts.len() - 1;
    let mut found: Vec<String> = Vec::new();
    let mut i: usize = 0;
    while i < last
        invariant
            i <= last,
            last == parts.len() - 1,
            texts(parts@) == whole,
            texts(found@) =~= whole.take(i as int).map_values(
                |line: Seq<char>| without_return(line),
            ),
        decreases last - i,
    {
        assert(texts(parts@)[i as int] == parts@[i as int]@);
        let ghost done = texts(found@);
        let line = parts[i].as_str();
        let end = line.unicode_len();
        if end > 0 && line.get_char(end - 1) == '\r' {
            found.push(line.substring_char(0, end - 1).to_owned());
        } else {
            found.push(line.to_owned());
        }
        i += 1;
        assert(whole.take(i as int) =~= whole.take(i - 1).push(whole[i - 1]));
        assert(texts(found@) =~= done.push(without_return(whole[i - 1])));
    }
    assert(whole.take(last as int) =~= whole.drop_last());
    assert(texts(parts@)[last as int] == parts@[last as int]@);
    if !parts[last].as_str().is_empty() {
        found.push(parts[last].clone());
    }
    assert(texts(found@) =~= lines(s@));
    found
}

proof fn first_place_found(s: Seq<char>, c: char, n: int)
    requires
        0 <= n <= s.len(),
        forall|j: int| 0 <= j < n ==> #[trigger] s[j] != c,
        n == s.len() || s[n] == c,
    ensures
        first_place(s, c) == n,
    decreases n,
{
    if n > 0 {
        assert(s[0] != c);
        let rest = s.drop_first();
        assert forall|j: int| 0 <= j < n - 1 implies #[trigger] rest[j] != c by {
            assert(rest[j] == s[j + 1]);
        }
        first_place_found(rest, c, n - 1);
    }
}

/// What stands before and after the first `sep` in `s`.
pub fn split_once<'a>(s: &'a str, sep: char) -> (r: Option<(&'a str, &'a str)>)
    ensures
        match r {
            Some((before, after)) => halves(s@, sep) == Some((before@, after@)),
            None => halves(s@, sep) is None,
        },
{
    let all = chars(s);
    let mut i: usize = 0;
    while i < all.len() && all[i] != sep
        invariant
            i <= all.len(),
            forall|j: int| 0 <= j < i ==> #[trigger] all@[j] != sep,
        ensures
            i == all.len() || all@[i as int] == sep,
        decreases all.len() - i,
    {
        i += 1;
    }
    proof {
        first_place_found(s@, sep, i as int);
    }
    if i == all.len() {
        None
    } else {
        let before = s.substring_char(0, i);
        let after = s.substring_char(i + 1, all.len());
        assert(before@ =~= s@.take(i as int));
        assert(after@ =~= s@.skip(i + 1));
        Some((before, after))
    }
}

/// Whether `needle` stands somewhere in `s`.
pub fn contains(s: &str, needle: &str) -> (r: bool)
    ensures
        r == holds_text(s@, needle@),
{
    let all = chars(s);
    let part = chars(needle);
    if part.len() > all.len() {
        assert(forall|at: int| !stands_at(s@, needle@, at));
        return false;
    }
    let mut at: usize = 0;
    while at <= all.len() - part.len()
        invariant
            part.len() <= all.len(),
            at <= all.len() - part.len() + 1,
            all@ == s@,
            part@ == needle@,
            forall|k: int| 0 <= k < at ==> !stands_at(s@, needle@, k),
        decreases all.len() - part.len() + 1 - at,
    {
        let mut i: usize = 0;
        while i < part.len() && part[i] == all[at + i]
            invariant
                i <= part.len(),
                at + part.len() <= all.len(),
                forall|j: int| 0 <= j < i ==> part@[j] == #[trigger] all@[at + j],
            ensures
                i == part.len() || part@[i as int] != all@[at + i],
            decreases part.len() - i,
        {
            i += 1;
        }
        let ghost window = s@.subrange(at as int, at + needle@.len());
        if i == part.len() {
            assert forall|j: int| 0 <= j < needle@.len() implies window[j] == needle@[j] by {
                assert(part@[j] == all@[at + j]);
            }
            assert(window =~= needle@);
            assert(stands_at(s@, needle@, at as int));
            return true;
        }
        assert(window[i as int] == all@[at + i]);
        if at == all.len() - part.len() {
            assert forall|k: int| !stands_at(s@, needle@, k) by {}
            return false;
        }
        at += 1;
    }
    assert forall|k: int| !stands_at(s@, needle@, k) by {}
    false
}

/// The strings of `parts` with `sep` between each two.
pub fn join(parts: &Vec<String>, sep: &str) -> (r: String)
    ensures
        r@ == joined(texts(parts@), sep@),
{
    let mut r: String = String::new();
    let ghost whole = texts(parts@);
    let mut i: usize = 0;
    while i < parts.len()
        invariant
            i <= parts.len(),
            whole == texts(parts@),
            r@ =~= joined(whole.take(i as int), sep@),
        decreases parts.len() - i,
    {
        let ghost next = whole.take(i + 1);
        assert(next.drop_last() =~= whole.take(i as int));
        assert(next.last() == parts@[i as int]@);
        if i > 0 {
            append(&mut r, sep);
        }
        append(&mut r, parts[i].as_str());
        i += 1;
    }
    assert(whole.take(i as int) =~= whole);
    r
}

/// Appends `s` to `to`.
pub fn append(to: &mut String, s: &str)
    ensures
        final(to)@ == old(to)@ + s@,
{
    vstd::string::StringExecFns::append(to, s)
}

/// `a` followed by `b`.
pub fn concat(a: &str, b: &str) -> (r: String)
    ensures
        r@ == a@ + b@,
{
    let mut r = a.to_owned();
    append(&mut r, b);
    r
}

fn digit_char(d: u64) -> (c: char)
    requires
        d < 10,
    ensures
        c == digit(d as nat),
{
    match d {
        0 => '0',
        1 => '1',
        2 => '2',
        3 => '3',
        4 => '4',
        5 => '5',
        6 => '6',
        7 => '7',
        8 => '8',
        _ => '9',
    }
}

/// `n` in decimal.
pub fn to_decimal(n: u64) -> (r: String)
    ensures
        r@ == decimal(n as nat),
    decreases n,
{
    let mut r: String = if n < 10 {
        String::new()
    } else {
        to_decimal(n / 10)
    };
    r.push(digit_char(n % 10));
    assert(r@ =~= decimal(n as nat));
    r
}

proof fn digits_value_grows(s: Seq<char>, n: int)
    requires
        0 <= n <= s.len(),
        all_digits(s),
    ensures
        digits_value(s.take(n)) <= digits_value(s),
    decreases s.len() - n,
{
    if n < s.len() {
        digits_value_grows(s.drop_last(), n);
        assert(s.drop_last().take(n) =~= s.take(n));
    } else {
        assert(s.take(n) =~= s);
    }
}

/// A number in decimal is read back, where it is no more than `max`.
pub proof fn decimal_is_read_back(n: nat, max: nat)
    requires
        n <= max,
    ensures
        parsed_number(decimal(n), max) == Some(n),
        all_digits(decimal(n)),
    decreases n,
{
    if n < 10 {
        let s = decimal(n);
        assert(s.drop_last() =~= Seq::empty());
        assert(digits_value(s) == n) by {
            reveal_with_fuel(digits_value, 2);
        }
    } else {
        let s = decimal(n);
        decimal_is_read_back(n / 10, max);
        let front = decimal(n / 10);
        assert(s.drop_last() =~= front);
        assert(front.len() > 0);
        assert(is_digit(front[0]));
        assert(s[0] == front[0]);
        assert(all_digits(s));
    }
}

/// The unsigned number that `s` spells, if it is no more than `max`.
pub fn parse_number(s: &str, max: u32) -> (r: Option<u32>)
    ensures
        match r {
            Some(n) => parsed_number(s@, max as nat) == Some(n as nat),
            None => parsed_number(s@, max as nat) is None,
        },
{
    let all = chars(s);
    let signed = all.len() > 0 && all[0] == '+';
    let from: usize = if signed {
        1
    } else {
        0
    };
    let ghost digits = s@.skip(from as int);
    proof {
        if signed {
            assert(digits =~= s@.drop_first());
        } else {
            assert(digits =~= s@);
        }
    }
    if all.len() == from {
        return None;
    }
    let mut n: u64 = 0;
    let mut i: usize = from;
    assert(digits.take(0) =~= Seq::empty());
    while i < all.len()
        invariant
            from <= i <= all.len(),
            all@ == s@,
            digits == s@.skip(from as int),
            digits == without_plus(s@),
            forall|j: int| 0 <= j < i - from ==> is_digit(#[trigger] digits[j]),
            n == digits_value(digits.take(i - from)),
            n <= max,
        decreases all.len() - i,
    {
        let c = all[i];
        assert(digits[i - from] == c);
        if !('0' <= c && c <= '9') {
            assert(!is_digit(digits[i - from]));
            return None;
        }
        let d: u64 = c as u64 - 0x30;
        n = n * 10 + d;
        i += 1;
        let ghost seen = digits.take(i - from);
        assert(seen.drop_last() =~= digits.take(i - from - 1));
        assert(seen.last() == c);
        if n > max as u64 {
            proof {
                if all_digits(digits) {
                    digits_value_grows(digits, i - from);
                }
            }
            return None;
        }
    }
    assert(digits.take(i - from) =~= digits);
    Some(n as u32)
}

/// A text that neither begins nor ends with white space is not trimmed.
pub proof fn solid_text_is_not_trimmed(s: Seq<char>)
    requires
        s.len() == 0 || (!is_white_space(s[0]) && !is_white_space(s.last())),
    ensures
        trimmed(s) == s,
{
}

proof fn strip_front_cuts(s: Seq<char>, class: CharClass)
    ensures
        ({
            let r = strip_front(s, class);
            &&& r.len() <= s.len()
            &&& r == s.skip(s.len() - r.len())
            &&& forall|i: int| 0 <= i < s.len() - r.len() ==> class.holds(#[trigger] s[i])
            &&& r.len() == 0 || !class.holds(r[0])
        }),
    decreases s.len(),
{
    if s.len() > 0 && class.holds(s[0]) {
        let rest = s.drop_first();
        strip_front_cuts(rest, class);
        let r = strip_front(rest, class);
        assert(rest.skip(rest.len() - r.len()) =~= s.skip(s.len() - r.len()));
        assert forall|i: int| 0 <= i < s.len() - r.len() implies class.holds(#[trigger] s[i]) by {
            if i > 0 {
                assert(rest[i - 1] == s[i]);
            }
        }
    } else {
        assert(s.skip(0) =~= s);
    }
}

proof fn strip_back_cuts(s: Seq<char>, class: CharClass)
    ensures
        ({
            let r = strip_back(s, class);
            &&& r.len() <= s.len()
            &&& r == s.take(r.len() as int)
            &&& forall|i: int| r.len() <= i < s.len() ==> class.holds(#[trigger] s[i])
            &&& r.len() == 0 || !class.holds(r.last())
        }),
    decreases s.len(),
{
    if s.len() > 0 && class.holds(s.last()) {
        let rest = s.drop_last();
        strip_back_cuts(rest, class);
        let r = strip_back(rest, class);
        assert(rest.take(r.len() as int) =~= s.take(r.len() as int));
        assert forall|i: int| r.len() <= i < s.len() implies class.holds(#[trigger] s[i]) by {
            if i < rest.len() {
                assert(rest[i] == s[i]);
            }
        }
    } else {
        assert(s.take(s.len() as int) =~= s);
    }
}

/// Trimming takes white space from both ends of a text, all of it, and nothing
/// else.
pub proof fn trimming_takes_the_white_space_around(before: Seq<char>, s: Seq<char>, after: Seq<char>)
    requires
        forall|i: int| 0 <= i < before.len() ==> is_white_space(#[trigger] before[i]),
        forall|i: int| 0 <= i < after.len() ==> is_white_space(#[trigger] after[i]),
        s.len() > 0,
        !is_white_space(s[0]),
        !is_white_space(s.last()),
    ensures
        trimmed(before + s + after) == s,
{
    let whole = before + s + after;
    let class = CharClass::WhiteSpace;
    assert forall|i: int| 0 <= i < before.len() implies class.holds(#[trigger] whole[i]) by {
        assert(whole[i] == before[i]);
    }
    assert(whole[before.len() as int] == s[0]);
    strip_front_skips(whole, class, before.len() as int);
    let rest = whole.skip(before.len() as int);
    assert(rest =~= s + after);
    assert forall|i: int| s.len() <= i < rest.len() implies class.holds(#[trigger] rest[i]) by {
        assert(rest[i] == after[i - s.len()]);
    }
    assert(rest[s.len() - 1] == s.last());
    strip_back_takes(rest, class, s.len() as int);
    assert(rest.take(s.len() as int) =~= s);
}

/// Whether `r` stands in `s` at `from`, with nothing but `c` around it.
pub open spec fn stands_among(s: Seq<char>, r: Seq<char>, c: char, from: int) -> bool {
    &&& 0 <= from <= from + r.len() <= s.len()
    &&& s.subrange(from, from + r.len()) == r
    &&& forall|i: int|
        0 <= i < s.len() && !(from <= i < from + r.len()) ==> #[trigger] s[i] == c
}

/// Cutting a character from both ends of a text takes all of it there, and
/// nothing else.
pub proof fn cutting_takes_the_character_around(s: Seq<char>, c: char)
    ensures
        exists|from: int| stands_among(s, strip_both(s, CharClass::Only(c)), c, from),
        strip_both(s, CharClass::Only(c)).len() > 0 ==> strip_both(s, CharClass::Only(c))[0] != c
            && strip_both(s, CharClass::Only(c)).last() != c,
{
    let class = CharClass::Only(c);
    strip_front_cuts(s, class);
    let front = strip_front(s, class);
    strip_back_cuts(front, class);
    let r = strip_back(front, class);
    let from = s.len() - front.len();
    assert(s.subrange(from, from + r.len()) =~= r);
    assert forall|i: int| 0 <= i < s.len() && !(from <= i < from + r.len()) implies #[trigger] s[i]
        == c by {
        if i < from {
            assert(class.holds(s[i]));
        } else {
            assert(front[i - from] == s[i]);
            assert(class.holds(front[i - from]));
        }
    }
    assert(r == strip_both(s, CharClass::Only(c)));
    assert(stands_among(s, strip_both(s, CharClass::Only(c)), c, from));
}

/// A text is held by every text that has it inside, and by no other.
pub proof fn text_is_held_where_it_stands(before: Seq<char>, needle: Seq<char>, after: Seq<char>)
    ensures
        holds_text(before + needle + after, needle),
        forall|s: Seq<char>| #[trigger]
            holds_text(s, needle) ==> exists|at: int|
                0 <= at <= s.len() - needle.len() && s == s.take(at) + needle + #[trigger] s.skip(
                    at + needle.len(),
                ),
{
    let whole = before + needle + after;
    let at = before.len() as int;
    assert(whole.subrange(at, at + needle.len()) =~= needle);
    assert(stands_at(whole, needle, at));
    assert forall|s: Seq<char>| #[trigger] holds_text(s, needle) implies exists|at: int|
        0 <= at <= s.len() - needle.len() && s == s.take(at) + needle + #[trigger] s.skip(
            at + needle.len(),
        ) by {
        let at = choose|at: int| stands_at(s, needle, at);
        assert(s =~= s.take(at) + needle + s.skip(at + needle.len()));
    }
}

/// What stands before and after a separator is what is parted there, at the
/// first one; without one nothing is parted.
pub proof fn halves_are_parted_at_the_first(before: Seq<char>, sep: char, after: Seq<char>)
    requires
        !before.contains(sep),
    ensures
        halves(before + seq![sep] + after, sep) == Some((before, after)),
        halves(before, sep) is None,
{
    let whole = before + seq![sep] + after;
    assert forall|j: int| 0 <= j < before.len() implies #[trigger] whole[j] != sep by {
        assert(before.contains(before[j]));
    }
    first_place_found(whole, sep, before.len() as int);
    assert(whole.take(before.len() as int) =~= before);
    assert(whole.skip(before.len() as int + 1) =~= after);
    assert forall|j: int| 0 <= j < before.len() implies #[trigger] before[j] != sep by {
        assert(before.contains(before[j]));
    }
    first_place_found(before, sep, before.len() as int);
}

/// A number is spelled by digits alone, at least one, behind one plus sign at
/// most; a further digit makes it ten times as large, plus the digit.
pub proof fn numbers_are_spelled_by_digits(s: Seq<char>, d: char, max: nat)
    ensures
        parsed_number(s, max) is Some ==> s.len() > 0 && (forall|i: int|
            1 <= i < s.len() ==> '0' <= #[trigger] s[i] <= '9') && ('0' <= s[0] <= '9' || (s[0]
            == '+' && s.len() > 1)),
        parsed_number(s, max) is Some ==> parsed_number(s, max)->0 <= max,
        parsed_number(s, max) is Some && '0' <= d <= '9' && 10 * parsed_number(s, max)->0 + (
        d as nat - '0' as nat) <= max ==> parsed_number(s.push(d), max) == Some(
            (10 * parsed_number(s, max)->0 + (d as nat - '0' as nat)) as nat,
        ),
        '0' <= d <= '9' && d as nat - '0' as nat <= max ==> parsed_number(seq![d], max) == Some(
            (d as nat - '0' as nat) as nat,
        ),
        parsed_number(s, max) is None && s.len() > 0 && s[0] != '+' && (forall|i: int|
            0 <= i < s.len() ==> '0' <= #[trigger] s[i] <= '9') ==> digits_value(s) > max,
{
    let digits = without_plus(s);
    if parsed_number(s, max) is Some {
        assert(is_digit(digits[0]));
        assert forall|i: int| 1 <= i < s.len() implies '0' <= #[trigger] s[i] <= '9' by {
            if s[0] == '+' {
                assert(is_digit(digits[i - 1]));
            } else {
                assert(is_digit(digits[i]));
            }
        }
        if '0' <= d <= '9' {
            let longer = s.push(d);
            assert(longer[0] == s[0]);
            assert(without_plus(longer) =~= digits.push(d));
            assert(digits.push(d).drop_last() =~= digits);
            assert(all_digits(digits.push(d)));
        }
    }
    if '0' <= d <= '9' {
        let one = seq![d];
        assert(without_plus(one) =~= one);
        assert(one.drop_last() =~= Seq::empty());
        assert(all_digits(one));
        reveal_with_fuel(digits_value, 2);
    }
    if s.len() > 0 && s[0] != '+' && (forall|i: int|
        0 <= i < s.len() ==> '0' <= #[trigger] s[i] <= '9') {
        assert(all_digits(s));
    }
}

/// Joining one text more puts the separator before it.
pub proof fn joining_separates(parts: Seq<Seq<char>>, last: Seq<char>, sep: Seq<char>)
    ensures
        parts.len() > 0 ==> joined(parts.push(last), sep) == joined(parts, sep) + sep + last,
        joined(seq![last], sep) == last,
{
    assert(parts.push(last).drop_last() =~= parts);
}

proof fn words_of_solid(word: Seq<char>)
    requires
        word.len() > 0,
        forall|i: int| 0 <= i < word.len() ==> !is_white_space(#[trigger] word[i]),
    ensures
        words(word) == seq![word],
    decreases word.len(),
{
    let init = word.drop_last();
    assert(!is_white_space(word[word.len() - 1]));
    if word.len() == 1 {
        assert(init =~= Seq::empty());
        assert(seq![word.last()] =~= word);
        assert(words(init) == Seq::<Seq<char>>::empty());
        assert(words(word) == words(init).push(seq![word.last()]));
        assert(words(word) =~= seq![word]);
    } else {
        words_of_solid(init);
        assert(!is_white_space(word[word.len() - 2]));
        assert(init.push(word.last()) =~= word);
        assert(words(init).drop_last() =~= Seq::empty());
        assert(words(word) =~= seq![word]);
    }
}

/// A blank ends a word, and what follows it is parted into words on its own.
pub proof fn blank_parts_words(first: Seq<char>, blank: char, rest: Seq<char>)
    requires
        first.len() > 0,
        forall|i: int| 0 <= i < first.len() ==> !is_white_space(#[trigger] first[i]),
        is_white_space(blank),
    ensures
        words(first + seq![blank] + rest) == seq![first] + words(rest),
    decreases rest.len(),
{
    let whole = first + seq![blank] + rest;
    let head = first + seq![blank];
    if rest.len() == 0 {
        words_of_solid(first);
        assert(whole =~= head);
        assert(head.drop_last() =~= first);
        assert(words(whole) =~= seq![first] + words(rest));
    } else {
        let init = rest.drop_last();
        blank_parts_words(first, blank, init);
        assert(whole.drop_last() =~= first + seq![blank] + init);
        assert(whole.last() == rest.last());
        if rest.len() == 1 {
            assert(whole[whole.len() - 2] == blank);
            assert(init =~= Seq::empty());
            assert(words(whole) =~= seq![first] + words(rest));
        } else {
            assert(whole[whole.len() - 2] == rest[rest.len() - 2]);
            words_end(init);
            assert(words(whole) =~= seq![first] + words(rest));
        }
    }
}

proof fn words_end(s: Seq<char>)
    ensures
        s.len() > 0 && !is_white_space(s.last()) ==> words(s).len() > 0,
    decreases s.len(),
{
    if s.len() > 0 {
        words_end(s.drop_last());
    }
}

/// The first line of a text ends at its first newline, without a carriage return
/// before it; the lines of what follows come after it. A text without a newline is
/// one line as it is, unless it is empty.
pub proof fn newline_ends_a_line(line: Seq<char>, more: Seq<char>)
    requires
        !line.contains('\n'),
    ensures
        lines(line + seq!['\n'] + more) == seq![without_return(line)] + lines(more),
        line.len() > 0 ==> lines(line) == seq![line],
        lines(Seq::empty()).len() == 0,
        line.len() > 0 && line.last() == '\r' ==> without_return(line) == line.drop_last(),
        line.len() == 0 || line.last() != '\r' ==> without_return(line) == line,
{
    joined_texts_are_the_pieces(seq![line], '\n');
    assert(joined(seq![line], seq!['\n']) == line);
    lines_of_longer(line, more);
    assert(pieces(line, '\n').map_values(|l: Seq<char>| without_return(l)) =~= seq![
        without_return(line),
    ]);
    assert(pieces(line, '\n').drop_last().map_values(|l: Seq<char>| without_return(l))
        =~= Seq::<Seq<char>>::empty());
    if line.len() > 0 {
        assert(lines(line) =~= seq![line]);
    }
    assert(pieces(Seq::empty(), '\n').drop_last().map_values(|l: Seq<char>| without_return(l))
        =~= Seq::<Seq<char>>::empty());
}

/// Two lists of texts, joined together, are joined each on its own, with the
/// separator between them.
pub proof fn joined_of_both(first: Seq<Seq<char>>, second: Seq<Seq<char>>, sep: Seq<char>)
    requires
        first.len() > 0,
        second.len() > 0,
    ensures
        joined(first + second, sep) == joined(first, sep) + sep + joined(second, sep),
    decreases second.len(),
{
    let both = first + second;
    if second.len() == 1 {
        assert(both.drop_last() =~= first);
    } else {
        let init = second.drop_last();
        joined_of_both(first, init, sep);
        assert(both.drop_last() =~= first + init);
        assert(joined(both, sep) =~= joined(first, sep) + sep + joined(second, sep));
    }
}

/// A text without white space is one word, and white space before a text makes no
/// difference to its words.
pub proof fn words_are_parted_by_white_space(word: Seq<char>, blank: char, s: Seq<char>)
    requires
        word.len() > 0,
        forall|i: int| 0 <= i < word.len() ==> !is_white_space(#[trigger] word[i]),
        is_white_space(blank),
    ensures
        words(word) == seq![word],
        words(seq![blank] + s) == words(s),
        words(Seq::empty()).len() == 0,
    decreases s.len(),
{
    words_of_solid(word);
    let whole = seq![blank] + s;
    if s.len() == 0 {
        assert(whole.drop_last() =~= s);
        assert(whole.last() == blank);
        assert(words(whole) == words(s));
    } else {
        let init = s.drop_last();
        words_are_parted_by_white_space(word, blank, init);
        assert(whole.drop_last() =~= seq![blank] + init);
        assert(whole.last() == s.last());
        if s.len() == 1 {
            assert(whole[whole.len() - 2] == blank);
        } else {
            assert(whole[whole.len() - 2] == s[s.len() - 2]);
        }
        assert(words(whole) =~= words(s));
    }
}

/// White space is what Unicode calls so: the blank, the control characters that
/// move to another place or line, and the spaces of various widths.
pub proof fn white_space_is_what_unicode_calls_so(c: char)
    ensures
        is_white_space(c) <==> ('\t' <= c <= '\r') || c == ' ' || c == '\u{85}' || c == '\u{a0}'
            || c == '\u{1680}' || ('\u{2000}' <= c <= '\u{200a}') || c == '\u{2028}' || c
            == '\u{2029}' || c == '\u{202f}' || c == '\u{205f}' || c == '\u{3000}',
        CharClass::WhiteSpace.holds(c) <==> is_white_space(c),
        forall|only: char| #[trigger] CharClass::Only(only).holds(c) <==> c == only,
{
}

} // verus!
