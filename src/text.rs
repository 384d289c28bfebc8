use vstd::prelude::*;
use vstd::std_specs::iter::IteratorSpec;

verus! {

/// Whether `c` is white space in the sense of Unicode's White_Space property,
/// the set that `char::is_whitespace` tests.
pub open spec fn is_space(c: char) -> bool {
    let u = c as u32;
    ||| 0x09 <= u <= 0x0D
    ||| u == 0x20
    ||| u == 0x85
    ||| u == 0xA0
    ||| u == 0x1680
    ||| 0x2000 <= u <= 0x200A
    ||| u == 0x2028
    ||| u == 0x2029
    ||| u == 0x202F
    ||| u == 0x205F
    ||| u == 0x3000
}

/// A word: a non-empty run of characters none of which is white space.
pub open spec fn is_word(w: Seq<char>) -> bool {
    w.len() > 0 && forall|i: int| 0 <= i < w.len() ==> !is_space(#[trigger] w[i])
}

/// The words of `s`, left to right, where `cur` is the part of a word already read.
pub open spec fn split_from(s: Seq<char>, cur: Seq<char>) -> Seq<Seq<char>>
    decreases s.len(),
{
    if s.len() == 0 {
        if cur.len() == 0 {
            seq![]
        } else {
            seq![cur]
        }
    } else if is_space(s[0]) {
        if cur.len() == 0 {
            split_from(s.drop_first(), seq![])
        } else {
            seq![cur] + split_from(s.drop_first(), seq![])
        }
    } else {
        split_from(s.drop_first(), cur.push(s[0]))
    }
}

/// The maximal runs of non-white-space characters of `s`, in order.
pub open spec fn words(s: Seq<char>) -> Seq<Seq<char>> {
    split_from(s, seq![])
}

/// The pieces `ws` joined with `sep` between neighbours.
pub open spec fn join_sep(ws: Seq<Seq<char>>, sep: Seq<char>) -> Seq<char>
    decreases ws.len(),
{
    if ws.len() == 0 {
        seq![]
    } else if ws.len() == 1 {
        ws[0]
    } else {
        ws[0] + sep + join_sep(ws.drop_first(), sep)
    }
}

/// The words `ws` joined with one space between neighbours.
pub open spec fn join_words(ws: Seq<Seq<char>>) -> Seq<char> {
    join_sep(ws, seq![' '])
}

/// The views of a sequence of strings.
pub open spec fn views(v: Seq<String>) -> Seq<Seq<char>> {
    v.map_values(|x: String| x@)
}

/// Reading a word continues the word under construction.
proof fn lemma_split_word(w: Seq<char>, r: Seq<char>, cur: Seq<char>)
    requires
        forall|i: int| 0 <= i < w.len() ==> !is_space(#[trigger] w[i]),
    ensures
        split_from(w + r, cur) == split_from(r, cur + w),
    decreases w.len(),
{
    if w.len() == 0 {
        assert(w + r =~= r);
        assert(cur + w =~= cur);
    } else {
        assert((w + r)[0] == w[0]);
        assert((w + r).drop_first() =~= w.drop_first() + r);
        lemma_split_word(w.drop_first(), r, cur.push(w[0]));
        assert(cur.push(w[0]) + w.drop_first() =~= cur + w);
    }
}

/// Appending a piece to a joined sequence appends it after the separator.
proof fn lemma_join_push(ws: Seq<Seq<char>>, w: Seq<char>, sep: Seq<char>)
    requires
        ws.len() > 0,
    ensures
        join_sep(ws.push(w), sep) == join_sep(ws, sep) + sep + w,
    decreases ws.len(),
{
    if ws.len() == 1 {
        assert(ws.push(w).drop_first() =~= seq![w]);
        assert(join_sep(seq![w], sep) == w);
    } else {
        assert(ws.push(w).drop_first() =~= ws.drop_first().push(w));
        lemma_join_push(ws.drop_first(), w, sep);
        assert(join_sep(ws.push(w), sep) =~= join_sep(ws, sep) + sep + w);
    }
}

/// Splitting words that were joined with single spaces gives them back.
pub proof fn lemma_words_of_join(ws: Seq<Seq<char>>)
    requires
        forall|i: int| 0 <= i < ws.len() ==> is_word(#[trigger] ws[i]),
    ensures
        words(join_words(ws)) == ws,
    decreases ws.len(),
{
    if ws.len() == 0 {
    } else if ws.len() == 1 {
        assert(is_word(ws[0]));
        lemma_split_word(ws[0], seq![], seq![]);
        assert(join_words(ws) == ws[0]);
        assert(ws[0] + Seq::<char>::empty() =~= ws[0]);
        assert(Seq::<char>::empty() + ws[0] =~= ws[0]);
        assert(seq![ws[0]] =~= ws);
    } else {
        let rest = ws.drop_first();
        assert(is_word(ws[0]));
        assert forall|i: int| 0 <= i < rest.len() implies is_word(#[trigger] rest[i]) by {
            assert(rest[i] == ws[i + 1]);
        }
        lemma_words_of_join(rest);
        let tail = seq![' '] + join_words(rest);
        assert(join_words(ws) == ws[0] + seq![' '] + join_sep(rest, seq![' ']));
        assert(join_words(ws) =~= ws[0] + tail);
        lemma_split_word(ws[0], tail, seq![]);
        assert(Seq::<char>::empty() + ws[0] =~= ws[0]);
        assert(tail.drop_first() =~= join_words(rest));
        assert(seq![ws[0]] + rest =~= ws);
    }
}

/// Every piece that splitting yields is a word, when the part already read
/// holds no white space.
proof fn lemma_split_yields_words(s: Seq<char>, cur: Seq<char>)
    requires
        forall|i: int| 0 <= i < cur.len() ==> !is_space(#[trigger] cur[i]),
    ensures
        forall|i: int|
            0 <= i < split_from(s, cur).len() ==> is_word(#[trigger] split_from(s, cur)[i]),
    decreases s.len(),
{
    if s.len() == 0 {
        if cur.len() > 0 {
            assert(seq![cur][0] == cur);
            assert(is_word(cur));
        }
    } else if is_space(s[0]) {
        lemma_split_yields_words(s.drop_first(), seq![]);
        if cur.len() == 0 {
            assert(split_from(s, cur) == split_from(s.drop_first(), seq![]));
        } else {
            let rest = split_from(s.drop_first(), seq![]);
            assert(split_from(s, cur) == seq![cur] + rest);
            assert(is_word(cur));
            assert forall|i: int| 0 <= i < (seq![cur] + rest).len() implies is_word(
                #[trigger] (seq![cur] + rest)[i],
            ) by {
                if i == 0 {
                    assert((seq![cur] + rest)[0] == cur);
                } else {
                    assert((seq![cur] + rest)[i] == rest[i - 1]);
                }
            }
        }
    } else {
        let next = cur.push(s[0]);
        assert forall|i: int| 0 <= i < next.len() implies !is_space(#[trigger] next[i]) by {
            if i < cur.len() {
                assert(next[i] == cur[i]);
            }
        }
        lemma_split_yields_words(s.drop_first(), next);
        assert(split_from(s, cur) == split_from(s.drop_first(), next));
    }
}

/// Every word of a text is a word: non-empty and free of white space.
pub proof fn lemma_words_are_words(s: Seq<char>)
    ensures
        forall|i: int| 0 <= i < words(s).len() ==> is_word(#[trigger] words(s)[i]),
{
    lemma_split_yields_words(s, seq![]);
}

/// Whether `c` is white space; the same set as `char::is_whitespace`.
pub fn is_space_char(c: char) -> (r: bool)
    ensures
        r == is_space(c),
{
    let u = c as u32;
    (0x09 <= u && u <= 0x0D) || u == 0x20 || u == 0x85 || u == 0xA0 || u == 0x1680 || (0x2000
        <= u && u <= 0x200A) || u == 0x2028 || u == 0x2029 || u == 0x202F || u == 0x205F || u
        == 0x3000
}

/// Whether the view of `s` is the literal `lit`.
pub fn is_literal(s: &String, lit: &str) -> (r: bool)
    ensures
        r == (s@ == lit@),
{
    let l = lit.to_owned();
    *s == l
}

/// Relies on `String::push`: the character is added at the end.
#[verifier::external_body]
fn push_char(s: &mut String, c: char)
    ensures
        final(s)@ == old(s)@.push(c),
{
    s.push(c)
}

/// The characters of `s`, in order.
pub fn chars_of(s: &str) -> (r: Vec<char>)
    ensures
        r@ == s@,
{
    broadcast use vstd::string::group_string_axioms;

    let mut it = s.chars();
    let mut v: Vec<char> = Vec::new();
    loop
        invariant
            it.obeys_prophetic_iter_laws(),
            it.decrease() is Some,
            v@ + it.remaining() == s@,
        ensures
            v@ == s@,
        decreases it.decrease()->0,
    {
        let ghost before = it.remaining();
        match it.next() {
            Some(c) => {
                v.push(c);
                assert(v@ + it.remaining() =~= s@);
            },
            None => {
                assert(before.len() == 0);
                assert(v@ =~= s@);
                break ;
            },
        }
    }
    v
}

/// The white-space separated words of `s`, in order.
pub fn split_words(s: &str) -> (r: Vec<String>)
    ensures
        views(r@) == words(s@),
{
    let chars = chars_of(s);
    let mut out: Vec<String> = Vec::new();
    let mut cur = String::new();
    let mut i: usize = 0;
    assert(s@.skip(0) =~= s@);
    assert(views(out@) =~= Seq::<Seq<char>>::empty());
    assert(views(out@) + words(s@) =~= words(s@));
    while i < chars.len()
        invariant
            chars@ == s@,
            i <= chars.len(),
            views(out@) + split_from(s@.skip(i as int), cur@) == words(s@),
        decreases chars.len() - i,
    {
        let c = chars[i];
        let ghost rest = s@.skip(i as int);
        assert(rest[0] == c);
        assert(rest.drop_first() =~= s@.skip(i + 1));
        let ghost old_cur = cur@;
        if is_space_char(c) {
            if !cur.as_str().is_empty() {
                let ghost before = views(out@);
                let ghost w = cur@;
                out.push(cur);
                cur = String::new();
                assert(views(out@) =~= before.push(w));
                assert(before + (seq![w] + split_from(s@.skip(i + 1), seq![])) =~= before.push(w)
                    + split_from(s@.skip(i + 1), seq![]));
                assert(cur@ =~= Seq::<char>::empty());
            } else {
                assert(old_cur =~= Seq::<char>::empty());
                assert(split_from(rest, old_cur) == split_from(s@.skip(i + 1), cur@));
            }
        } else {
            push_char(&mut cur, c);
            assert(split_from(rest, old_cur) == split_from(s@.skip(i + 1), cur@));
        }
        i += 1;
    }
    assert(s@.skip(i as int) =~= Seq::<char>::empty());
    if !cur.as_str().is_empty() {
        let ghost before = views(out@);
        out.push(cur);
        assert(views(out@) =~= before + split_from(s@.skip(i as int), cur@));
    } else {
        assert(views(out@) =~= views(out@) + split_from(s@.skip(i as int), cur@));
    }
    out
}

/// The strings `v[from..]` joined with one space between neighbours.
pub fn join_from(v: &Vec<String>, from: usize) -> (r: String)
    requires
        from <= v.len(),
    ensures
        r@ == join_words(views(v@).skip(from as int)),
{
    let r = join_with(v, from, " ");
    proof {
        reveal_strlit(" ");
        assert(" "@ =~= seq![' ']);
    }
    r
}

/// The strings `v[from..]` joined with `sep` between neighbours.
pub fn join_with(v: &Vec<String>, from: usize, sep: &str) -> (r: String)
    requires
        from <= v.len(),
    ensures
        r@ == join_sep(views(v@).skip(from as int), sep@),
{
    if from == v.len() {
        assert(views(v@).skip(from as int) =~= Seq::<Seq<char>>::empty());
        return String::new();
    }
    let mut acc = v[from].clone();
    let mut i: usize = from + 1;
    assert(views(v@).subrange(from as int, i as int) =~= seq![v@[from as int]@]);
    while i < v.len()
        invariant
            from < i <= v.len(),
            acc@ == join_sep(views(v@).subrange(from as int, i as int), sep@),
        decreases v.len() - i,
    {
        let ghost prev = views(v@).subrange(from as int, i as int);
        acc.append(sep);
        acc.append(v[i].as_str());
        proof {
            lemma_join_push(prev, v@[i as int]@, sep@);
            assert(views(v@).subrange(from as int, i + 1) =~= prev.push(v@[i as int]@));
        }
        i += 1;
    }
    assert(views(v@).subrange(from as int, i as int) =~= views(v@).skip(from as int));
    acc
}

} // verus!
