//! The metadata overlay: the file name, the bookmarks, and the id and labels of each
//! selected object.

use crate::common::selected_info::{decimal_string, digits_of, signed_decimal};
use crate::common::text::{append, chars_of, push_char};
use crate::common::{index_from_one, spec_index_from_one};
use crate::components::{ObjectView, World};
use crate::os::decimal;
use crate::resources::sync_term::{lemma_put_all_concat, line_texels, put_all, SyncTerm};
use crate::resources::State;
use crate::texel_types::{labels_view, Position2D, SymbolStyles, Texel, DEFAULT_BG_U8, DEFAULT_FG_U8};
use crate::components::selected_count;
use vstd::prelude::*;

verus! {

/// Bytes that UTF-8 takes for `c`
pub open spec fn utf8_width(c: char) -> int {
    if (c as u32) < 0x80 {
        1
    } else if (c as u32) < 0x800 {
        2
    } else if (c as u32) < 0x10000 {
        3
    } else {
        4
    }
}

/// Bytes that UTF-8 takes for `s`
pub open spec fn utf8_len(s: Seq<char>) -> int
    decreases s.len(),
{
    if s.len() == 0 {
        0
    } else {
        utf8_len(s.drop_last()) + utf8_width(s.last())
    }
}

/// Texels of `text` in the default colors from (`x`, `y`)
pub open spec fn plain_line(x: int, y: int, text: Seq<char>) -> Seq<Texel> {
    line_texels(x, y as i32, text, DEFAULT_BG_U8, DEFAULT_FG_U8, SymbolStyles::spec_empty())
}

/// The line of a bookmark: the digit that jumps to it
pub open spec fn bookmark_text(index: usize) -> Seq<char> {
    signed_decimal(spec_index_from_one(index) as int)
}

/// The bookmark lines, one a row from the third row down
pub open spec fn bookmark_lines(bookmarks: Seq<(usize, Position2D)>) -> Seq<Texel>
    decreases bookmarks.len(),
{
    if bookmarks.len() == 0 {
        Seq::empty()
    } else {
        bookmark_lines(bookmarks.drop_last()) + plain_line(1, bookmarks.len() + 1int, bookmark_text(bookmarks.last().0))
    }
}

/// `===  id  ===`, or `===<NONE>===` for a sprite without an id
pub open spec fn id_text(id: Option<u32>) -> Seq<char> {
    match id {
        Some(n) => seq!['=', '=', '=', ' ', ' '] + decimal(n as nat) + seq![' ', ' ', '=', '=', '='],
        None => seq!['=', '=', '=', '<', 'N', 'O', 'N', 'E', '>', '=', '=', '='],
    }
}

/// The labels as `key=value`, separated by commas
pub open spec fn labels_joined(labels: Seq<(Seq<char>, Seq<char>)>) -> Seq<char>
    decreases labels.len(),
{
    if labels.len() == 0 {
        Seq::empty()
    } else {
        let pair = labels.last().0 + seq!['='] + labels.last().1;
        if labels.len() == 1 {
            pair
        } else {
            labels_joined(labels.drop_last()) + seq![','] + pair
        }
    }
}

/// ` Labels: ` and the joined labels, cut after 15 characters with `...`
pub open spec fn labels_text(labels: Seq<(Seq<char>, Seq<char>)>) -> Seq<char> {
    let joined = labels_joined(labels);
    let head = seq![' ', 'L', 'a', 'b', 'e', 'l', 's', ':', ' '];
    if joined.len() > 15 {
        head + joined.take(15) + seq!['.', '.', '.']
    } else {
        head + joined
    }
}

/// The id and labels lines of each selected object, two rows each from the top, from
/// column `x`
pub open spec fn selected_lines(objs: Seq<ObjectView>, x: int) -> Seq<Texel>
    decreases objs.len(),
{
    if objs.len() == 0 {
        Seq::empty()
    } else {
        let rest = selected_lines(objs.drop_last(), x);
        let o = objs.last();
        if o.selected {
            let y: int = 2 * (selected_count(objs.drop_last()) as int);
            rest + plain_line(x, y, id_text(o.sprite.id)) + plain_line(x, y + 1, labels_text(o.sprite.labels))
        } else {
            rest
        }
    }
}

/// File name shown: the save path, or `NONE`
pub open spec fn shown_filename(state: State) -> Seq<char> {
    match state.spec_save_path() {
        Some(p) => p,
        None => "NONE"@,
    }
}

/// What the overlay draws on a screen `w` wide, in order
pub open spec fn meta_texels(world: World, state: State, w: int) -> Seq<Texel> {
    let name = shown_filename(state);
    plain_line(w / 2 - utf8_len(name) / 2, 1, seq!['<'] + name + seq!['>']) + plain_line(1, 1, "=====BOOKMARKS====="@)
        + bookmark_lines(world@.bookmarks) + selected_lines(world@.objects, w - 25)
}

/// The overlay's rows and texts fit the screen's coordinates
pub open spec fn meta_fits(world: World, state: State) -> bool {
    &&& utf8_len(shown_filename(state)) < 0x1000_0000
    &&& world@.bookmarks.len() < 0x1000_0000
    &&& world@.objects.len() < 0x1000_0000
}

proof fn lemma_utf8_len_bounds(s: Seq<char>)
    ensures
        s.len() <= utf8_len(s) <= 4 * s.len(),
    decreases s.len(),
{
    if s.len() > 0 {
        lemma_utf8_len_bounds(s.drop_last());
    }
}

proof fn lemma_selected_count_bound(objs: Seq<ObjectView>)
    ensures
        selected_count(objs) <= objs.len(),
    decreases objs.len(),
{
    if objs.len() > 0 {
        lemma_selected_count_bound(objs.drop_last());
    }
}

/// Bytes that UTF-8 takes for `s`, when they are fewer than `limit`
fn utf8_byte_len(s: &str, limit: u32) -> (r: u32)
    requires
        utf8_len(s@) < limit,
    ensures
        r == utf8_len(s@),
{
    let n = s.unicode_len();
    let mut bytes: u32 = 0;
    let mut i: usize = 0;
    while i < n
        invariant
            n == s@.len(),
            i <= n,
            utf8_len(s@) < limit,
            bytes == utf8_len(s@.take(i as int)),
        decreases n - i,
    {
        let c = s.get_char(i);
        assert(s@.take(i + 1).drop_last() =~= s@.take(i as int));
        proof {
            lemma_utf8_prefix(s@, i + 1);
        }
        let code = c as u32;
        let width: u32 = if code < 0x80 {
            1
        } else if code < 0x800 {
            2
        } else if code < 0x10000 {
            3
        } else {
            4
        };
        bytes = bytes + width;
        i = i + 1;
    }
    assert(s@.take(n as int) =~= s@);
    bytes
}

proof fn lemma_utf8_prefix(s: Seq<char>, k: int)
    requires
        0 <= k <= s.len(),
    ensures
        utf8_len(s.take(k)) <= utf8_len(s),
    decreases s.len() - k,
{
    if k < s.len() {
        lemma_utf8_prefix(s, k + 1);
        assert(s.take(k + 1).drop_last() =~= s.take(k));
    } else {
        assert(s.take(k) =~= s);
    }
}

/// `===  id  ===`, or `===<NONE>===`
fn id_string(id: Option<u32>) -> (r: String)
    ensures
        r@ == id_text(id),
{
    let mut s = String::new();
    match id {
        Some(n) => {
            push_char(&mut s, '=');
            push_char(&mut s, '=');
            push_char(&mut s, '=');
            push_char(&mut s, ' ');
            push_char(&mut s, ' ');
            let digits = digits_of(n);
            let mut i: usize = 0;
            let ghost start = s@;
            while i < digits.len()
                invariant
                    i <= digits@.len(),
                    s@ == start + digits@.take(i as int),
                decreases digits@.len() - i,
            {
                push_char(&mut s, digits[i]);
                assert(digits@.take(i + 1) =~= digits@.take(i as int).push(digits@[i as int]));
                i = i + 1;
            }
            assert(digits@.take(digits@.len() as int) =~= digits@);
            push_char(&mut s, ' ');
            push_char(&mut s, ' ');
            push_char(&mut s, '=');
            push_char(&mut s, '=');
            push_char(&mut s, '=');
        },
        None => {
            push_char(&mut s, '=');
            push_char(&mut s, '=');
            push_char(&mut s, '=');
            push_char(&mut s, '<');
            push_char(&mut s, 'N');
            push_char(&mut s, 'O');
            push_char(&mut s, 'N');
            push_char(&mut s, 'E');
            push_char(&mut s, '>');
            push_char(&mut s, '=');
            push_char(&mut s, '=');
            push_char(&mut s, '=');
        },
    }
    assert(s@ =~= id_text(id));
    s
}

/// ` Labels: ` and the labels as `key=value` separated by commas, cut after 15 characters
fn labels_string(labels: &Vec<(String, String)>) -> (r: String)
    ensures
        r@ == labels_text(labels_view(labels@)),
{
    let ghost lv = labels_view(labels@);
    let mut joined = String::new();
    let mut i: usize = 0;
    while i < labels.len()
        invariant
            lv == labels_view(labels@),
            i <= labels@.len(),
            joined@ == labels_joined(lv.take(i as int)),
        decreases labels@.len() - i,
    {
        if i > 0 {
            push_char(&mut joined, ',');
        }
        append(&mut joined, labels[i].0.as_str());
        push_char(&mut joined, '=');
        append(&mut joined, labels[i].1.as_str());
        assert(lv.take(i + 1).drop_last() =~= lv.take(i as int));
        assert(lv.take(i + 1).last() == lv[i as int]);
        i = i + 1;
    }
    assert(lv.take(labels@.len() as int) =~= lv);
    let chars = chars_of(joined.as_str());
    let mut s = String::new();
    push_char(&mut s, ' ');
    append(&mut s, "Labels: ");
    proof {
        reveal_strlit("Labels: ");
    }
    if chars.len() > 15 {
        let mut k: usize = 0;
        let ghost start = s@;
        while k < 15
            invariant
                k <= 15,
                chars@.len() > 15,
                s@ == start + chars@.take(k as int),
            decreases 15 - k,
        {
            push_char(&mut s, chars[k]);
            assert(chars@.take(k + 1) =~= chars@.take(k as int).push(chars@[k as int]));
            k = k + 1;
        }
        push_char(&mut s, '.');
        push_char(&mut s, '.');
        push_char(&mut s, '.');
    } else {
        append(&mut s, joined.as_str());
    }
    assert(s@ =~= labels_text(lv));
    s
}

/// Draws the file name, the bookmarks, and the id and labels of each selected object, when
/// the overlay is on
pub fn render_meta_info(world: &World, state: &State, out: &mut SyncTerm)
    requires
        old(out).wf(),
        meta_fits(*world, *state),
    ensures
        final(out).wf(),
        final(out).width() == old(out).width(),
        final(out).height() == old(out).height(),
        final(out).origin() == old(out).origin(),
        final(out).previous() == old(out).previous(),
        final(out).cursor() == old(out).cursor(),
        final(out).current() == if state.spec_show_meta() {
            put_all(old(out).width(), old(out).height(), old(out).origin(), old(out).current(), meta_texels(*world, *state, old(out).width()))
        } else {
            old(out).current()
        },
{
    if !state.show_meta() {
        return;
    }
    let (sx, _) = out.size();
    let w = sx as i32;
    let ghost (gw, gh, go) = (out.width(), out.height(), out.origin());
    let ghost c0 = out.current();
    let filename = state.filename();
    let name_bytes = utf8_byte_len(filename, 0x1000_0000);
    proof {
        lemma_utf8_len_bounds(filename@);
    }
    let mut title = String::new();
    push_char(&mut title, '<');
    append(&mut title, filename);
    push_char(&mut title, '>');
    let x0 = w / 2 - name_bytes as i32 / 2;
    out.write_line_default(x0, 1, title.as_str());
    proof {
        reveal_strlit("=====BOOKMARKS=====");
    }
    out.write_line_default(1, 1, "=====BOOKMARKS=====");
    let ghost first = plain_line(x0 as int, 1, title@) + plain_line(1, 1, "=====BOOKMARKS====="@);
    proof {
        lemma_put_all_concat(gw, gh, go, c0, plain_line(x0 as int, 1, title@), plain_line(1, 1, "=====BOOKMARKS====="@));
        assert(title@ =~= seq!['<'] + filename@ + seq!['>']);
    }
    let ghost c1 = out.current();
    let ghost marks = world@.bookmarks;
    let mut i: usize = 0;
    while i < world.bookmarks.len()
        invariant
            marks == world@.bookmarks,
            marks.len() < 0x1000_0000,
            i <= marks.len(),
            out.wf(),
            out.width() == gw,
            out.height() == gh,
            out.origin() == go,
            out.previous() == old(out).previous(),
            out.cursor() == old(out).cursor(),
            out.current() == put_all(gw, gh, go, c1, bookmark_lines(marks.take(i as int))),
        decreases marks.len() - i,
    {
        let text = decimal_string(index_from_one(world.bookmarks[i].0.0));
        let ghost c = out.current();
        proof {
            assert(marks.take(i + 1).drop_last() =~= marks.take(i as int));
            assert(marks[i as int].0 == world.bookmarks@[i as int].0.0);
            crate::common::selected_info::lemma_i32_text(spec_index_from_one(world.bookmarks@[i as int].0.0));
        }
        out.write_line_default(1, (i + 2) as i32, text.as_str());
        proof {
            lemma_put_all_concat(
                gw,
                gh,
                go,
                c1,
                bookmark_lines(marks.take(i as int)),
                plain_line(1, i + 2, text@),
            );
        }
        i = i + 1;
    }
    assert(marks.take(marks.len() as int) =~= marks);
    let ghost c2 = out.current();
    let x = w - 25;
    let ghost objs = world@.objects;
    let mut y: i32 = 0;
    let mut k: usize = 0;
    while k < world.objects.len()
        invariant
            objs == world@.objects,
            objs.len() < 0x1000_0000,
            k <= objs.len(),
            y == 2 * selected_count(objs.take(k as int)),
            x == gw - 25,
            0 < gw < u16::MAX,
            out.wf(),
            out.width() == gw,
            out.height() == gh,
            out.origin() == go,
            out.previous() == old(out).previous(),
            out.cursor() == old(out).cursor(),
            out.current() == put_all(gw, gh, go, c2, selected_lines(objs.take(k as int), x as int)),
        decreases objs.len() - k,
    {
        let o = &world.objects[k];
        proof {
            assert(objs.take(k + 1).drop_last() =~= objs.take(k as int));
            assert(objs[k as int] == world.objects@[k as int]@);
            lemma_selected_count_bound(objs.take(k as int));
        }
        if o.selected {
            let id = id_string(o.sprite.id);
            let labels = labels_string(&o.sprite.labels);
            let ghost c = out.current();
            let ghost a = plain_line(x as int, y as int, id@);
            let ghost b = plain_line(x as int, y + 1, labels@);
            proof {
                match o.sprite.id {
                    Some(n) => crate::common::selected_info::lemma_u32_text(n),
                    None => {},
                }
                assert(labels@.len() <= 27);
            }
            out.write_line_default(x, y, id.as_str());
            out.write_line_default(x, y + 1, labels.as_str());
            proof {
                lemma_put_all_concat(gw, gh, go, c, a, b);
                lemma_put_all_concat(gw, gh, go, c2, selected_lines(objs.take(k as int), x as int), a + b);
                assert(selected_lines(objs.take(k as int), x as int) + (a + b) =~= selected_lines(objs.take(k as int), x as int) + a + b);
            }
            y = y + 2;
        }
        k = k + 1;
    }
    assert(objs.take(objs.len() as int) =~= objs);
    proof {
        lemma_put_all_concat(gw, gh, go, c0, first, bookmark_lines(marks));
        lemma_put_all_concat(gw, gh, go, c0, first + bookmark_lines(marks), selected_lines(objs, x as int));
    }
}

} // verus!
