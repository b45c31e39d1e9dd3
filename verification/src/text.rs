//! Text as sequences of characters: classes of characters, stripping, splitting, joining and
//! decimal numbers.

use vstd::prelude::*;

verus! {

/// The content of a text.
pub type Text = Seq<char>;

/// The characters with the Unicode property White_Space.
pub open spec fn is_white(c: char) -> bool {
    ||| '\u{9}' <= c <= '\u{d}'
    ||| c == '\u{20}'
    ||| c == '\u{85}'
    ||| c == '\u{a0}'
    ||| c == '\u{1680}'
    ||| '\u{2000}' <= c <= '\u{200a}'
    ||| c == '\u{2028}'
    ||| c == '\u{2029}'
    ||| c == '\u{202f}'
    ||| c == '\u{205f}'
    ||| c == '\u{3000}'
}

/// `char::is_whitespace` of the standard library: true of exactly the characters that have the
/// Unicode property White_Space, which `is_white` lists.
pub assume_specification[ char::is_whitespace ](c: char) -> (white: bool)
    ensures
        white == is_white(c),
;

/// `String::push` of the standard library: appends one character and changes nothing else.
pub assume_specification[ String::push ](s: &mut String, ch: char)
    ensures
        final(s)@ == old(s)@.push(ch),
;

/// The letters and digits of ASCII.
pub open spec fn is_alphanumeric(c: char) -> bool {
    ||| 'a' <= c <= 'z'
    ||| 'A' <= c <= 'Z'
    ||| '0' <= c <= '9'
}

/// Whether `c` is a letter or a digit of ASCII.
pub fn ascii_alphanumeric(c: char) -> (r: bool)
    ensures
        r == is_alphanumeric(c),
{
    ('a' <= c && c <= 'z') || ('A' <= c && c <= 'Z') || ('0' <= c && c <= '9')
}

/// The classes of characters at which a text is stripped or split.
#[derive(Clone, Copy, PartialEq, Eq, Structural, Debug)]
pub enum Class {
    /// White space, as Unicode has it.
    White,
    /// The full stop.
    Dot,
    /// The separators of path parts, `/` and `\`.
    Separator,
}

impl Class {
    /// The characters of the class.
    pub open spec fn contains(self, c: char) -> bool {
        match self {
            Class::White => is_white(c),
            Class::Dot => c == '.',
            Class::Separator => c == '/' || c == '\\',
        }
    }

    /// Whether `c` is in the class.
    pub fn has(self, c: char) -> (r: bool)
        ensures
            r == self.contains(c),
    {
        match self {
            Class::White => c.is_whitespace(),
            Class::Dot => c == '.',
            Class::Separator => c == '/' || c == '\\',
        }
    }
}

/// The characters of a text, in order.
pub fn chars_of(s: &str) -> (chars: Vec<char>)
    ensures
        chars@ == s@,
{
    let mut chars: Vec<char> = Vec::new();
    for c in it: s.chars()
        invariant
            it.seq() == s@,
            chars@ == s@.take(it.index()),
    {
        chars.push(c);
    }
    chars
}

/// Whether two texts are the same.
pub fn same_text(a: &str, b: &str) -> (r: bool)
    ensures
        r == (a@ == b@),
{
    a.to_string() == b.to_string()
}

/// A copy of the characters of `chars` from `from` up to `to`, as a text.
pub fn text_of(chars: &Vec<char>, from: usize, to: usize) -> (s: String)
    requires
        from <= to <= chars@.len(),
    ensures
        s@ == chars@.subrange(from as int, to as int),
{
    let mut s = String::new();
    let mut i: usize = from;
    while i < to
        invariant
            from <= i <= to <= chars@.len(),
            s@ == chars@.subrange(from as int, i as int),
        decreases to - i,
    {
        s.push(chars[i]);
        i += 1;
        assert(chars@.subrange(from as int, i as int) =~= chars@.subrange(
            from as int,
            i - 1,
        ).push(chars@[i - 1]));
    }
    s
}

/// `s` without the characters of the class that it begins with.
pub open spec fn strip_front(s: Seq<char>, class: Class) -> Seq<char>
    decreases s.len(),
{
    if s.len() > 0 && class.contains(s.first()) {
        strip_front(s.drop_first(), class)
    } else {
        s
    }
}

/// `s` without the characters of the class that it ends with.
pub open spec fn strip_back(s: Seq<char>, class: Class) -> Seq<char>
    decreases s.len(),
{
    if s.len() > 0 && class.contains(s.last()) {
        strip_back(s.drop_last(), class)
    } else {
        s
    }
}

/// `s` without the characters of the class at either end.
pub open spec fn stripped(s: Seq<char>, class: Class) -> Seq<char> {
    strip_back(strip_front(s, class), class)
}

/// The text without the characters of the class at either end.
pub fn strip(s: &str, class: Class) -> (r: String)
    ensures
        r@ == stripped(s@, class),
{
    let chars = chars_of(s);
    let n: usize = chars.len();
    let mut from: usize = 0;
    assert(chars@.skip(0) =~= s@);
    while from < n && class.has(chars[from])
        invariant
            from <= n,
            n == chars@.len(),
            strip_front(s@, class) == strip_front(chars@.skip(from as int), class),
        decreases n - from,
    {
        assert(chars@.skip(from as int).drop_first() =~= chars@.skip(from + 1));
        from += 1;
    }
    let mut to: usize = n;
    assert(chars@.skip(from as int) =~= chars@.subrange(from as int, to as int));
    while to > from && class.has(chars[to - 1])
        invariant
            from <= to <= n,
            n == chars@.len(),
            stripped(s@, class) == strip_back(chars@.subrange(from as int, to as int), class),
        decreases to,
    {
        assert(chars@.subrange(from as int, to as int).drop_last() =~= chars@.subrange(
            from as int,
            to - 1,
        ));
        to -= 1;
    }
    text_of(&chars, from, to)
}

/// The contents of a list of texts.
pub open spec fn texts(list: Seq<String>) -> Seq<Seq<char>> {
    list.map_values(|s: String| s@)
}

/// The pieces of `s` between the characters of the class: one piece more than there are such
/// characters, each possibly empty.
pub open spec fn pieces(s: Seq<char>, class: Class) -> Seq<Seq<char>>
    decreases s.len(),
{
    if s.len() == 0 {
        seq![Seq::<char>::empty()]
    } else {
        let front = pieces(s.drop_last(), class);
        if class.contains(s.last()) {
            front.push(Seq::<char>::empty())
        } else {
            front.drop_last().push(front.last().push(s.last()))
        }
    }
}

/// The text cut into the pieces between the characters of the class.
pub fn split(s: &str, class: Class) -> (list: Vec<String>)
    ensures
        texts(list@) == pieces(s@, class),
        list@.len() > 0,
{
    let mut list: Vec<String> = Vec::new();
    let mut current = String::new();
    assert(texts(list@).push(current@) =~= pieces(s@.take(0), class));
    for c in it: s.chars()
        invariant
            it.seq() == s@,
            texts(list@).push(current@) == pieces(s@.take(it.index()), class),
    {
        let ghost before = texts(list@);
        let ghost word = current@;
        assert(s@.take(it.index() + 1).drop_last() =~= s@.take(it.index()));
        if class.has(c) {
            list.push(current);
            current = String::new();
            assert(texts(list@) =~= before.push(word));
        } else {
            current.push(c);
            assert(before.push(word).drop_last() =~= before);
        }
    }
    let ghost before = texts(list@);
    let ghost word = current@;
    list.push(current);
    assert(texts(list@) =~= before.push(word));
    assert(s@.take(s@.len() as int) =~= s@);
    list
}

/// The texts of a list that are not empty, in order.
pub open spec fn nonempty(list: Seq<Seq<char>>) -> Seq<Seq<char>>
    decreases list.len(),
{
    if list.len() == 0 {
        list
    } else if list.last().len() > 0 {
        nonempty(list.drop_last()).push(list.last())
    } else {
        nonempty(list.drop_last())
    }
}

/// The words of `s`: its pieces between white space that are not empty.
pub open spec fn words_of(s: Seq<char>) -> Seq<Seq<char>> {
    nonempty(pieces(s, Class::White))
}

/// The words of the text.
pub fn words(s: &str) -> (list: Vec<String>)
    ensures
        texts(list@) == words_of(s@),
{
    let all = split(s, Class::White);
    let mut list: Vec<String> = Vec::new();
    let mut i: usize = 0;
    assert(texts(list@) =~= nonempty(texts(all@).take(0)));
    while i < all.len()
        invariant
            i <= all@.len(),
            texts(list@) == nonempty(texts(all@).take(i as int)),
        decreases all@.len() - i,
    {
        let ghost before = texts(list@);
        assert(texts(all@).take(i + 1).drop_last() =~= texts(all@).take(i as int));
        if !all[i].as_str().is_empty() {
            list.push(all[i].clone());
            assert(texts(list@) =~= before.push(all@[i as int]@));
        }
        i += 1;
    }
    assert(texts(all@).take(i as int) =~= texts(all@));
    list
}

/// The texts of a list, with `between` between each two neighbours.
pub open spec fn joined(list: Seq<Seq<char>>, between: Seq<char>) -> Seq<char>
    decreases list.len(),
{
    if list.len() == 0 {
        Seq::empty()
    } else if list.len() == 1 {
        list[0]
    } else {
        joined(list.drop_last(), between) + between + list.last()
    }
}

/// The texts of the list as one text, with `between` between each two neighbours.
pub fn join(list: &Vec<String>, between: &str) -> (r: String)
    ensures
        r@ == joined(texts(list@), between@),
{
    let mut r = String::new();
    let mut i: usize = 0;
    assert(texts(list@).take(0).len() == 0);
    while i < list.len()
        invariant
            i <= list@.len(),
            r@ == joined(texts(list@).take(i as int), between@),
        decreases list@.len() - i,
    {
        assert(texts(list@).take(i + 1).drop_last() =~= texts(list@).take(i as int));
        if i > 0 {
            r.append(between);
        }
        r.append(list[i].as_str());
        i += 1;
    }
    assert(texts(list@).take(i as int) =~= texts(list@));
    r
}

/// The decimal digit of a number below ten.
pub open spec fn digit(n: nat) -> char {
    ('0' as u32 + n) as char
}

/// The number written in decimal, without leading zeros.
pub open spec fn decimal(n: nat) -> Seq<char>
    decreases n,
{
    if n < 10 {
        seq![digit(n)]
    } else {
        decimal(n / 10).push(digit(n % 10))
    }
}

/// The number written in decimal.
pub fn decimal_text(n: u128) -> (r: String)
    ensures
        r@ == decimal(n as nat),
    decreases n,
{
    let last: u8 = (n % 10) as u8;
    let mut r = if n < 10 {
        String::new()
    } else {
        decimal_text(n / 10)
    };
    r.push((48u8 + last) as char);
    assert(n < 10 ==> r@ =~= seq![digit(n as nat)]);
    r
}

/// A text has at least one piece, and a text without characters of the class is its only piece.
pub proof fn lemma_pieces_of_plain(s: Seq<char>, class: Class)
    ensures
        pieces(s, class).len() >= 1,
        (forall|i: int| 0 <= i < s.len() ==> !class.contains(#[trigger] s[i])) ==> pieces(s, class)
            == seq![s],
    decreases s.len(),
{
    if s.len() > 0 {
        lemma_pieces_of_plain(s.drop_last(), class);
        if forall|i: int| 0 <= i < s.len() ==> !class.contains(#[trigger] s[i]) {
            assert forall|i: int| 0 <= i < s.drop_last().len() implies !class.contains(
                #[trigger] s.drop_last()[i],
            ) by {
                assert(s.drop_last()[i] == s[i]);
            }
            assert(pieces(s.drop_last(), class) == seq![s.drop_last()]);
            assert(s.drop_last().push(s.last()) =~= s);
            assert(pieces(s, class) =~= seq![s]);
        }
    } else {
        assert(s =~= Seq::<char>::empty());
    }
}

/// The first piece of a text is what stands before its first character of the class.
pub proof fn lemma_first_piece(s: Seq<char>, class: Class, k: int)
    requires
        0 <= k < s.len(),
        class.contains(s[k]),
        forall|i: int| 0 <= i < k ==> !class.contains(#[trigger] s[i]),
    ensures
        pieces(s, class).len() >= 2,
        pieces(s, class).first() == s.take(k),
    decreases s.len(),
{
    let front = s.drop_last();
    if k < s.len() - 1 {
        assert forall|i: int| 0 <= i < k implies !class.contains(#[trigger] front[i]) by {
            assert(front[i] == s[i]);
        }
        lemma_first_piece(front, class, k);
        assert(front.take(k) =~= s.take(k));
    } else {
        assert forall|i: int| 0 <= i < front.len() implies !class.contains(#[trigger] front[i]) by {
            assert(front[i] == s[i]);
        }
        lemma_pieces_of_plain(front, class);
        assert(front =~= s.take(k));
    }
}

/// No piece of a text holds a character of the class.
pub proof fn lemma_pieces_are_plain(s: Seq<char>, class: Class)
    ensures
        forall|i: int, j: int|
            #![trigger pieces(s, class)[i][j]]
            0 <= i < pieces(s, class).len() && 0 <= j < pieces(s, class)[i].len()
                ==> !class.contains(pieces(s, class)[i][j]),
    decreases s.len(),
{
    if s.len() > 0 {
        lemma_pieces_are_plain(s.drop_last(), class);
        lemma_pieces_of_plain(s.drop_last(), class);
    }
}

/// A character of the class and a text without any add that text as a last piece.
pub proof fn lemma_pieces_push(a: Seq<char>, sep: char, b: Seq<char>, class: Class)
    requires
        class.contains(sep),
        forall|i: int| 0 <= i < b.len() ==> !class.contains(#[trigger] b[i]),
    ensures
        pieces(a + seq![sep] + b, class) == pieces(a, class).push(b),
    decreases b.len(),
{
    let s = a + seq![sep] + b;
    if b.len() == 0 {
        assert(s.drop_last() =~= a);
        assert(b =~= Seq::<char>::empty());
    } else {
        let front = b.drop_last();
        assert forall|i: int| 0 <= i < front.len() implies !class.contains(#[trigger] front[i]) by {
            assert(front[i] == b[i]);
        }
        lemma_pieces_push(a, sep, front, class);
        assert(s.drop_last() =~= a + seq![sep] + front);
        assert(s.last() == b.last());
        assert(!class.contains(b[b.len() - 1]));
        assert(front.push(b.last()) =~= b);
        assert(pieces(a, class).push(front).drop_last() =~= pieces(a, class));
    }
}

/// Joining a list to which one text more was added.
pub proof fn lemma_joined_push(list: Seq<Seq<char>>, last: Seq<char>, between: Seq<char>)
    ensures
        joined(list.push(last), between) == if list.len() == 0 {
            last
        } else {
            joined(list, between) + between + last
        },
{
    assert(list.push(last).drop_last() =~= list);
}

/// Splitting undoes joining: a list of texts that hold no character of the class, joined by one
/// such character, splits into the same list.
pub proof fn law_split_undoes_join(list: Seq<Seq<char>>, sep: char, class: Class)
    requires
        class.contains(sep),
        list.len() > 0,
        forall|i: int, j: int|
            #![trigger list[i][j]]
            0 <= i < list.len() && 0 <= j < list[i].len() ==> !class.contains(list[i][j]),
    ensures
        pieces(joined(list, seq![sep]), class) == list,
    decreases list.len(),
{
    let front = list.drop_last();
    let last = list.last();
    assert forall|j: int| 0 <= j < last.len() implies !class.contains(#[trigger] last[j]) by {
        assert(last[j] == list[list.len() - 1][j]);
    }
    if list.len() == 1 {
        lemma_pieces_of_plain(last, class);
        assert(list =~= seq![last]);
    } else {
        assert forall|i: int, j: int|
            #![trigger front[i][j]]
            0 <= i < front.len() && 0 <= j < front[i].len() implies !class.contains(
            front[i][j],
        ) by {
            assert(front[i][j] == list[i][j]);
        }
        law_split_undoes_join(front, sep, class);
        lemma_pieces_push(joined(front, seq![sep]), sep, last, class);
        assert(front.push(last) =~= list);
    }
}

/// `s` with every character of the class replaced.
pub open spec fn replaced(s: Seq<char>, class: Class, by: char) -> Seq<char> {
    s.map_values(|c: char| if class.contains(c) { by } else { c })
}

/// Joining undoes splitting: the pieces of a text, joined by one character, are the text with
/// every character of the class replaced by that one.
pub proof fn law_join_undoes_split(s: Seq<char>, class: Class, by: char)
    ensures
        joined(pieces(s, class), seq![by]) == replaced(s, class, by),
    decreases s.len(),
{
    if s.len() == 0 {
        assert(replaced(s, class, by) =~= Seq::<char>::empty());
    } else {
        let front = pieces(s.drop_last(), class);
        law_join_undoes_split(s.drop_last(), class, by);
        lemma_pieces_of_plain(s.drop_last(), class);
        assert(front.drop_last().push(front.last()) =~= front);
        let rest = replaced(s.drop_last(), class, by);
        if class.contains(s.last()) {
            lemma_joined_push(front, Seq::empty(), seq![by]);
            assert(joined(pieces(s, class), seq![by]) =~= rest.push(by));
        } else {
            let extended = front.last().push(s.last());
            lemma_joined_push(front.drop_last(), front.last(), seq![by]);
            lemma_joined_push(front.drop_last(), extended, seq![by]);
            assert(joined(pieces(s, class), seq![by]) =~= rest.push(s.last()));
        }
        assert(joined(pieces(s, class), seq![by]) =~= replaced(s, class, by));
    }
}

/// Joining shorter texts gives no longer a text.
pub proof fn lemma_joined_len(a: Seq<Seq<char>>, b: Seq<Seq<char>>, between: Seq<char>)
    requires
        a.len() == b.len(),
        forall|i: int| 0 <= i < a.len() ==> (#[trigger] a[i]).len() <= b[i].len(),
    ensures
        joined(a, between).len() <= joined(b, between).len(),
    decreases a.len(),
{
    if a.len() > 1 {
        assert forall|i: int| 0 <= i < a.drop_last().len() implies (
        #[trigger] a.drop_last()[i]).len() <= b.drop_last()[i].len() by {
            assert(a.drop_last()[i] == a[i]);
        }
        lemma_joined_len(a.drop_last(), b.drop_last(), between);
        assert(a[a.len() - 1].len() <= b[b.len() - 1].len());
    } else if a.len() == 1 {
        assert(a[0].len() <= b[0].len());
    }
}

/// What stripping leaves: a part of the text that neither begins nor ends with a character of
/// the class.
pub proof fn lemma_stripped(s: Seq<char>, class: Class)
    ensures
        stripped(s, class).len() <= s.len(),
        stripped(s, class).len() > 0 ==> !class.contains(stripped(s, class).first())
            && !class.contains(stripped(s, class).last()),
        forall|i: int|
            0 <= i < stripped(s, class).len() ==> s.contains(#[trigger] stripped(s, class)[i]),
{
    lemma_strip_front(s, class);
    lemma_strip_back(strip_front(s, class), class);
    let front = strip_front(s, class);
    assert forall|i: int| 0 <= i < stripped(s, class).len() implies s.contains(
        #[trigger] stripped(s, class)[i],
    ) by {
        assert(stripped(s, class)[i] == front[i]);
        assert(s.contains(front[i]));
    }
}

/// What stripping leaves is one stretch of the text, from `r.0` up to `r.1`.
pub proof fn lemma_stripped_is_a_stretch(s: Seq<char>, class: Class) -> (r: (int, int))
    ensures
        0 <= r.0 <= r.1 <= s.len(),
        stripped(s, class) == s.subrange(r.0, r.1),
    decreases s.len(),
{
    if s.len() > 0 && class.contains(s.first()) {
        let r = lemma_stripped_is_a_stretch(s.drop_first(), class);
        assert(s.drop_first().subrange(r.0, r.1) =~= s.subrange(r.0 + 1, r.1 + 1));
        (r.0 + 1, r.1 + 1)
    } else {
        lemma_strip_back(s, class);
        let n = strip_back(s, class).len() as int;
        assert(s.take(n) =~= s.subrange(0, n));
        (0, n)
    }
}

proof fn lemma_strip_front(s: Seq<char>, class: Class)
    ensures
        strip_front(s, class).len() <= s.len(),
        strip_front(s, class).len() > 0 ==> !class.contains(strip_front(s, class).first()),
        forall|i: int|
            0 <= i < strip_front(s, class).len() ==> s.contains(#[trigger] strip_front(s, class)[i]),
    decreases s.len(),
{
    if s.len() > 0 && class.contains(s.first()) {
        lemma_strip_front(s.drop_first(), class);
        assert forall|i: int| 0 <= i < strip_front(s, class).len() implies s.contains(
            #[trigger] strip_front(s, class)[i],
        ) by {
            let x = strip_front(s, class)[i];
            assert(s.drop_first().contains(x));
            let k = choose|k: int| 0 <= k < s.drop_first().len() && s.drop_first()[k] == x;
            assert(s[k + 1] == x);
        }
    }
}

proof fn lemma_strip_back(s: Seq<char>, class: Class)
    ensures
        strip_back(s, class).len() <= s.len(),
        strip_back(s, class).len() > 0 ==> !class.contains(strip_back(s, class).last()),
        strip_back(s, class) == s.take(strip_back(s, class).len() as int),
    decreases s.len(),
{
    if s.len() > 0 && class.contains(s.last()) {
        lemma_strip_back(s.drop_last(), class);
        assert(s.drop_last().take(strip_back(s, class).len() as int) =~= s.take(
            strip_back(s, class).len() as int,
        ));
    } else {
        assert(s.take(s.len() as int) =~= s);
    }
}

/// A character of the class between two texts parts their pieces.
pub proof fn lemma_pieces_concat(a: Seq<char>, sep: char, b: Seq<char>, class: Class)
    requires
        class.contains(sep),
    ensures
        pieces(a + seq![sep] + b, class) == pieces(a, class) + pieces(b, class),
    decreases b.len(),
{
    let s = a + seq![sep] + b;
    if b.len() == 0 {
        assert(s.drop_last() =~= a);
        assert(pieces(b, class) =~= seq![Seq::<char>::empty()]);
        assert(pieces(s, class) =~= pieces(a, class) + pieces(b, class));
    } else {
        let front = b.drop_last();
        lemma_pieces_concat(a, sep, front, class);
        lemma_pieces_of_plain(front, class);
        assert(s.drop_last() =~= a + seq![sep] + front);
        assert(s.last() == b.last());
        assert(pieces(s, class) =~= pieces(a, class) + pieces(b, class));
    }
}

/// Dropping the empty texts of two lists one after the other.
pub proof fn lemma_nonempty_concat(a: Seq<Seq<char>>, b: Seq<Seq<char>>)
    ensures
        nonempty(a + b) == nonempty(a) + nonempty(b),
    decreases b.len(),
{
    if b.len() == 0 {
        assert(a + b =~= a);
        assert(nonempty(a) + nonempty(b) =~= nonempty(a));
    } else {
        lemma_nonempty_concat(a, b.drop_last());
        assert((a + b).drop_last() =~= a + b.drop_last());
        assert(nonempty(a + b) =~= nonempty(a) + nonempty(b));
    }
}

/// White space between two texts parts their words.
pub proof fn law_white_space_parts_words(a: Seq<char>, c: char, b: Seq<char>)
    requires
        is_white(c),
    ensures
        words_of(a + seq![c] + b) == words_of(a) + words_of(b),
{
    lemma_pieces_concat(a, c, b, Class::White);
    lemma_nonempty_concat(pieces(a, Class::White), pieces(b, Class::White));
}

proof fn lemma_strip_front_concat(a: Seq<char>, b: Seq<char>, class: Class)
    ensures
        strip_front(a + b, class) == if strip_front(a, class).len() == 0 {
            strip_front(b, class)
        } else {
            strip_front(a, class) + b
        },
    decreases a.len(),
{
    if a.len() == 0 {
        assert(a + b =~= b);
    } else if class.contains(a.first()) {
        assert((a + b).drop_first() =~= a.drop_first() + b);
        lemma_strip_front_concat(a.drop_first(), b, class);
    }
}

proof fn lemma_strip_front_all(s: Seq<char>, class: Class)
    requires
        forall|i: int| 0 <= i < s.len() ==> class.contains(#[trigger] s[i]),
    ensures
        strip_front(s, class).len() == 0,
    decreases s.len(),
{
    if s.len() > 0 {
        assert(class.contains(s[0]));
        assert forall|i: int| 0 <= i < s.drop_first().len() implies class.contains(
            #[trigger] s.drop_first()[i],
        ) by {
            assert(s.drop_first()[i] == s[i + 1]);
        }
        lemma_strip_front_all(s.drop_first(), class);
    }
}

proof fn lemma_strip_back_concat(s: Seq<char>, back: Seq<char>, class: Class)
    requires
        forall|i: int| 0 <= i < back.len() ==> class.contains(#[trigger] back[i]),
    ensures
        strip_back(s + back, class) == strip_back(s, class),
    decreases back.len(),
{
    if back.len() == 0 {
        assert(s + back =~= s);
    } else {
        assert(class.contains(back[back.len() - 1]));
        assert((s + back).drop_last() =~= s + back.drop_last());
        assert forall|i: int| 0 <= i < back.drop_last().len() implies class.contains(
            #[trigger] back.drop_last()[i],
        ) by {
            assert(back.drop_last()[i] == back[i]);
        }
        lemma_strip_back_concat(s, back.drop_last(), class);
    }
}

/// Characters of the class around a text make no difference to what stripping leaves.
pub proof fn law_stripping_ignores_what_surrounds(
    front: Seq<char>,
    s: Seq<char>,
    back: Seq<char>,
    class: Class,
)
    requires
        forall|i: int| 0 <= i < front.len() ==> class.contains(#[trigger] front[i]),
        forall|i: int| 0 <= i < back.len() ==> class.contains(#[trigger] back[i]),
    ensures
        stripped(front + s + back, class) == stripped(s, class),
{
    assert(front + s + back =~= front + (s + back));
    lemma_strip_front_concat(front, s + back, class);
    lemma_strip_front_all(front, class);
    lemma_strip_front_concat(s, back, class);
    lemma_strip_front_all(back, class);
    lemma_strip_back_concat(strip_front(s, class), back, class);
}

proof fn lemma_replaced_strip(s: Seq<char>, by: char)
    requires
        Class::Separator.contains(by),
    ensures
        strip_front(replaced(s, Class::Separator, by), Class::White) == replaced(
            strip_front(s, Class::White),
            Class::Separator,
            by,
        ),
        strip_back(replaced(s, Class::Separator, by), Class::White) == replaced(
            strip_back(s, Class::White),
            Class::Separator,
            by,
        ),
    decreases s.len(),
{
    let r = replaced(s, Class::Separator, by);
    if s.len() > 0 {
        lemma_replaced_strip(s.drop_first(), by);
        lemma_replaced_strip(s.drop_last(), by);
        assert(r.drop_first() =~= replaced(s.drop_first(), Class::Separator, by));
        assert(r.drop_last() =~= replaced(s.drop_last(), Class::Separator, by));
        assert(Class::White.contains(r.first()) == Class::White.contains(s.first()));
        assert(Class::White.contains(r.last()) == Class::White.contains(s.last()));
    } else {
        assert(r =~= s);
    }
}

/// Writing every separator of a text as the same one changes neither where the white space
/// around the text ends, nor the pieces between the separators.
pub proof fn law_separators_are_alike(s: Seq<char>, by: char)
    requires
        Class::Separator.contains(by),
    ensures
        stripped(replaced(s, Class::Separator, by), Class::White) == replaced(
            stripped(s, Class::White),
            Class::Separator,
            by,
        ),
        pieces(replaced(s, Class::Separator, by), Class::Separator) == pieces(s, Class::Separator),
    decreases s.len(),
{
    let r = replaced(s, Class::Separator, by);
    lemma_replaced_strip(s, by);
    lemma_replaced_strip(strip_front(s, Class::White), by);
    if s.len() > 0 {
        law_separators_are_alike(s.drop_last(), by);
        assert(r.drop_last() =~= replaced(s.drop_last(), Class::Separator, by));
    } else {
        assert(r =~= s);
    }
}

} // verus!
