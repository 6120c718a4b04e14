use vstd::prelude::*;

use crate::item::{decode, encode, Item};

verus! {

/// What a sequence of items holds: each item's text and whether it is done.
pub open spec fn views(items: Seq<Item>) -> Seq<(Seq<char>, bool)> {
    items.map_values(|it: Item| it@)
}

/// The text of a day's file: the items' lines joined by `\n`, with no final separator.
pub open spec fn render(items: Seq<(Seq<char>, bool)>) -> Seq<char>
    decreases items.len(),
{
    if items.len() == 0 {
        seq![]
    } else if items.len() == 1 {
        encode(items[0].0, items[0].1)
    } else {
        render(items.drop_last()) + seq!['\n'] + encode(items.last().0, items.last().1)
    }
}

/// A line with its `\r` dropped, where it ends with one.
pub open spec fn strip_cr(l: Seq<char>) -> Seq<char> {
    if l.len() > 0 && l.last() == '\r' {
        l.drop_last()
    } else {
        l
    }
}

/// The lines of `s` that a `\n` ends (each without its `\r\n` or `\n`),
/// and what follows the last `\n`.
pub open spec fn split_lines(s: Seq<char>) -> (Seq<Seq<char>>, Seq<char>)
    decreases s.len(),
{
    if s.len() == 0 {
        (seq![], seq![])
    } else {
        let (done, rest) = split_lines(s.drop_last());
        if s.last() == '\n' {
            (done.push(strip_cr(rest)), seq![])
        } else {
            (done, rest.push(s.last()))
        }
    }
}

/// The lines of `s`: the last one needs no `\n`, and an empty one after the last `\n` is none.
pub open spec fn lines(s: Seq<char>) -> Seq<Seq<char>> {
    let (done, rest) = split_lines(s);
    if rest.len() == 0 {
        done
    } else {
        done.push(rest)
    }
}

/// The items that the lines decode to, in order; the other lines are passed over.
pub open spec fn decode_all(ls: Seq<Seq<char>>) -> Seq<(Seq<char>, bool)>
    decreases ls.len(),
{
    if ls.len() == 0 {
        seq![]
    } else {
        let front = decode_all(ls.drop_last());
        match decode(ls.last()) {
            Some(it) => front.push(it),
            None => front,
        }
    }
}

/// The items that the text of a day's file holds.
pub open spec fn parse(s: Seq<char>) -> Seq<(Seq<char>, bool)> {
    decode_all(lines(s))
}

/// One item, not done, for each of the texts.
pub open spec fn seeded(defaults: Seq<Seq<char>>) -> Seq<(Seq<char>, bool)> {
    defaults.map_values(|t: Seq<char>| (t, false))
}

/// What loading a day's file gives: the default items first where the file did not exist,
/// then the items of its text.
pub open spec fn load(existed: bool, data: Seq<char>, defaults: Seq<Seq<char>>) -> Seq<(Seq<char>, bool)> {
    if existed {
        parse(data)
    } else {
        seeded(defaults) + parse(data)
    }
}

/// The texts of a vector of strings.
pub open spec fn texts(v: Seq<String>) -> Seq<Seq<char>> {
    v.map_values(|s: String| s@)
}

/// The number of items that are done.
pub open spec fn count_done(items: Seq<(Seq<char>, bool)>) -> nat
    decreases items.len(),
{
    if items.len() == 0 {
        0
    } else {
        count_done(items.drop_last()) + if items.last().1 { 1nat } else { 0nat }
    }
}

/// The text to write to a day's file for these items.
pub fn render_items(items: &Vec<Item>) -> (r: String)
    ensures
        r@ == render(views(items@)),
{
    let mut r = String::new();
    let mut i: usize = 0;
    while i < items.len()
        invariant
            i <= items.len(),
            r@ == render(views(items@).take(i as int)),
        decreases items.len() - i,
    {
        let ghost v = views(items@);
        assert(v.take(i as int + 1).drop_last() =~= v.take(i as int));
        if i > 0 {
            r.append("\n");
            proof {
                reveal_strlit("\n");
            }
        }
        let line = items[i].to_string();
        r.append(line.as_str());
        i = i + 1;
        assert(r@ =~= render(v.take(i as int)));
    }
    assert(views(items@).take(i as int) =~= views(items@));
    r
}

/// The items that the text of a day's file holds, in order; lines that are not items are passed over.
pub fn parse_items(data: &str) -> (r: Vec<Item>)
    ensures
        views(r@) == parse(data@),
{
    let n = data.unicode_len();
    let mut out: Vec<Item> = Vec::new();
    let mut start: usize = 0;
    let mut i: usize = 0;
    let mut prev: char = '\n';
    while i < n
        invariant
            n == data@.len(),
            start <= i <= n,
            i > 0 ==> prev == data@[i - 1],
            split_lines(data@.take(i as int)).1 == data@.subrange(start as int, i as int),
            views(out@) == decode_all(split_lines(data@.take(i as int)).0),
        decreases n - i,
    {
        let c = data.get_char(i);
        let ghost before = data@.take(i as int);
        assert(data@.take(i + 1).drop_last() =~= before);
        if c == '\n' {
            let end: usize = if i > start && prev == '\r' { i - 1 } else { i };
            let line = data.substring_char(start, end);
            let ghost sl = split_lines(before);
            assert(line@ =~= strip_cr(sl.1));
            assert(sl.0.push(line@).drop_last() =~= sl.0);
            let ghost old_out = out@;
            match Item::from_str(line) {
                Ok(it) => {
                    out.push(it);
                    assert(views(out@) =~= views(old_out).push(it@));
                },
                Err(_) => {},
            }
            start = i + 1;
        } else {
            assert(data@.subrange(start as int, i + 1) =~= data@.subrange(start as int, i as int).push(c));
        }
        prev = c;
        i = i + 1;
    }
    assert(data@.take(n as int) =~= data@);
    if start < n {
        let line = data.substring_char(start, n);
        let ghost sl = split_lines(data@);
        assert(sl.0.push(line@).drop_last() =~= sl.0);
        let ghost old_out = out@;
        match Item::from_str(line) {
            Ok(it) => {
                out.push(it);
                assert(views(out@) =~= views(old_out).push(it@));
            },
            Err(_) => {},
        }
    }
    out
}

/// The items of a day's file: where it did not exist, one item, not done, for each default
/// text, then the items of what it holds (one it has just been created holds nothing).
pub fn load_items(existed: bool, data: &str, defaults: &Vec<String>) -> (r: Vec<Item>)
    ensures
        views(r@) == load(existed, data@, texts(defaults@)),
{
    let mut r: Vec<Item> = Vec::new();
    if !existed {
        let mut i: usize = 0;
        while i < defaults.len()
            invariant
                i <= defaults.len(),
                views(r@) == seeded(texts(defaults@)).take(i as int),
            decreases defaults.len() - i,
        {
            let ghost old_r = r@;
            let it = Item::new(defaults[i].clone());
            r.push(it);
            assert(views(r@) =~= views(old_r).push((defaults@[i as int]@, false)));
            i = i + 1;
            assert(views(r@) =~= seeded(texts(defaults@)).take(i as int));
        }
        assert(seeded(texts(defaults@)).take(i as int) =~= seeded(texts(defaults@)));
    }
    let mut parsed = parse_items(data);
    let ghost front = r@;
    let ghost back = parsed@;
    r.append(&mut parsed);
    assert(views(r@) =~= views(front) + views(back));
    r
}

/// How many of the items are done.
pub fn count_completed(items: &Vec<Item>) -> (r: usize)
    ensures
        r == count_done(views(items@)),
{
    let mut k: usize = 0;
    let mut i: usize = 0;
    while i < items.len()
        invariant
            i <= items.len(),
            k <= i,
            k == count_done(views(items@).take(i as int)),
        decreases items.len() - i,
    {
        assert(views(items@).take(i + 1).drop_last() =~= views(items@).take(i as int));
        if items[i].completed() {
            k = k + 1;
        }
        i = i + 1;
    }
    assert(views(items@).take(i as int) =~= views(items@));
    k
}

/// The name of a day's file: the day's name with `.md` after it.
pub fn day_file_name(day_name: &str) -> (r: String)
    ensures
        r@ == day_name@ + seq!['.', 'm', 'd'],
{
    let r = String::from_str(day_name).concat(".md");
    proof {
        reveal_strlit(".md");
    }
    assert(r@ =~= day_name@ + seq!['.', 'm', 'd']);
    r
}

/// Items that come back unchanged from their file: no text holds a `\n`, and none but the
/// last ends with a `\r` (a line's `\r\n` counts as its end).
pub open spec fn storable(items: Seq<(Seq<char>, bool)>) -> bool {
    forall|i: int|
        0 <= i < items.len() ==> {
            &&& !items[i].0.contains('\n')
            &&& (i < items.len() - 1 ==> !(items[i].0.len() > 0 && items[i].0.last() == '\r'))
        }
}

proof fn lemma_split_no_newline(x: Seq<char>, y: Seq<char>)
    requires
        !y.contains('\n'),
    ensures
        split_lines(x + y) == (split_lines(x).0, split_lines(x).1 + y),
    decreases y.len(),
{
    if y.len() == 0 {
        assert(x + y =~= x);
        assert(split_lines(x).1 + y =~= split_lines(x).1);
    } else {
        let y0 = y.drop_last();
        assert(!y0.contains('\n')) by {
            if y0.contains('\n') {
                let k = choose|k: int| 0 <= k < y0.len() && y0[k] == '\n';
                assert(y[k] == '\n');
            }
        }
        lemma_split_no_newline(x, y0);
        assert((x + y).drop_last() =~= x + y0);
        assert(y[y.len() - 1] != '\n');
        assert(split_lines(x).1 + y0 + seq![y.last()] =~= split_lines(x).1 + y);
    }
}

proof fn lemma_encode_ends(text: Seq<char>, completed: bool)
    requires
        !text.contains('\n'),
    ensures
        !(text.len() > 0 && text.last() == '\r') ==> strip_cr(encode(text, completed)) == encode(text, completed),
        !encode(text, completed).contains('\n'),
        encode(text, completed).len() > 0,
{
    let e = encode(text, completed);
    if text.len() > 0 {
        assert(e.last() == text.last());
    } else {
        assert(e.last() == ' ');
    }
    if e.contains('\n') {
        let k = choose|k: int| 0 <= k < e.len() && e[k] == '\n';
        if k >= 6 {
            assert(text[k - 6] == '\n');
        }
    }
}

proof fn lemma_split_render(items: Seq<(Seq<char>, bool)>)
    requires
        items.len() > 0,
        storable(items),
    ensures
        split_lines(render(items)) == (
            Seq::new((items.len() - 1) as nat, |i: int| encode(items[i].0, items[i].1)),
            encode(items.last().0, items.last().1),
        ),
    decreases items.len(),
{
    let n = items.len();
    let last = encode(items.last().0, items.last().1);
    if n == 1 {
        lemma_encode_ends(items[0].0, items[0].1);
        lemma_split_no_newline(seq![], last);
        assert(seq![] + last =~= last);
    } else {
        let pre = items.drop_last();
        assert forall|i: int| 0 <= i < pre.len() implies {
            &&& !pre[i].0.contains('\n')
            &&& (i < pre.len() - 1 ==> !(pre[i].0.len() > 0 && pre[i].0.last() == '\r'))
        } by {
            assert(pre[i] == items[i]);
        }
        lemma_split_render(pre);
        let rp = render(pre);
        let with_nl = rp + seq!['\n'];
        assert(with_nl.drop_last() =~= rp);
        lemma_encode_ends(items[n - 2].0, items[n - 2].1);
        assert(items[n - 2] == pre.last());
        lemma_encode_ends(items.last().0, items.last().1);
        lemma_split_no_newline(with_nl, last);
        assert(seq![] + last =~= last);
        assert(split_lines(with_nl).0 =~= Seq::new((n - 1) as nat, |i: int| encode(items[i].0, items[i].1)));
    }
}

proof fn lemma_decode_encoded(items: Seq<(Seq<char>, bool)>)
    ensures
        decode_all(Seq::new(items.len(), |i: int| encode(items[i].0, items[i].1))) == items,
    decreases items.len(),
{
    let ls = Seq::new(items.len(), |i: int| encode(items[i].0, items[i].1));
    if items.len() > 0 {
        let pre = items.drop_last();
        lemma_decode_encoded(pre);
        assert(ls.drop_last() =~= Seq::new(pre.len(), |i: int| encode(pre[i].0, pre[i].1)));
        crate::item::lemma_round_trip(items.last().0, items.last().1);
        assert(pre.push(items.last()) =~= items);
    } else {
        assert(items =~= seq![]);
    }
}

/// Saving items and loading the file back gives the same items, whatever the defaults:
/// the file exists once it has been written.
pub proof fn lemma_reload(items: Seq<(Seq<char>, bool)>, defaults: Seq<Seq<char>>)
    requires
        storable(items),
    ensures
        load(true, render(items), defaults) == items,
{
    let n = items.len();
    if n == 0 {
        assert(split_lines(render(items)) == (Seq::<Seq<char>>::empty(), Seq::<char>::empty()));
        assert(items =~= seq![]);
    } else {
        lemma_split_render(items);
        let ls = Seq::new(n, |i: int| encode(items[i].0, items[i].1));
        assert(lines(render(items)) =~= ls);
        lemma_decode_encoded(items);
    }
}

/// A day whose file did not exist loads as its default texts, in order, none of them done.
pub proof fn lemma_seed_defaults(defaults: Seq<Seq<char>>)
    ensures
        load(false, seq![], defaults) == seeded(defaults),
        load(false, seq![], defaults).len() == defaults.len(),
        forall|i: int|
            0 <= i < defaults.len() ==> load(false, seq![], defaults)[i] == (defaults[i], false),
{
    assert(parse(seq![]) == Seq::<(Seq<char>, bool)>::empty());
    assert(seeded(defaults) + parse(seq![]) =~= seeded(defaults));
}

} // verus!
