//! The title of the calls, which moves where it is too long.
use vstd::prelude::*;

use crate::decimal::{i64_text, int_text, nat_text, u64_text};
use crate::text::{chars_of, same_text, text_of};
use crate::tui::{App, Focus, Scroll};
use crate::view::{trunc, truncated};

verus! {

/// What is known of a title that moves.
pub struct ScrollView {
    pub key: Seq<char>,
    pub offset: nat,
    pub tick: u8,
}

impl View for Scroll {
    type V = ScrollView;

    open spec fn view(&self) -> ScrollView {
        ScrollView { key: self.key@, offset: self.offset as nat, tick: self.tick }
    }
}

/// What a text in a width is known by.
pub open spec fn scroll_key(value: Seq<char>, width: nat) -> Seq<char> {
    nat_text(width) + ":"@ + value
}

/// A text, and the gap before it comes round again.
pub open spec fn with_gap(value: Seq<char>) -> Seq<char> {
    value + seq![' ', ' ', ' ']
}

/// What of a text that goes round is seen in a width.
pub open spec fn window(round: Seq<char>, offset: int, width: nat) -> Seq<char> {
    Seq::new(width, |i: int| round[(offset + i) % (round.len() as int)])
}

/// The next tick.
pub open spec fn next_tick(tick: u8) -> u8 {
    if tick == 255 {
        0
    } else {
        (tick + 1) as u8
    }
}

/// What is seen of a text in a width, and how far it has moved then. A text that
/// is too long moves by one character with every second time it is shown.
pub open spec fn scrolled(scroll: ScrollView, value: Seq<char>, width: nat) -> (
    Seq<char>,
    ScrollView,
) {
    let key = scroll_key(value, width);
    let known = if scroll.key == key {
        scroll
    } else {
        ScrollView { key, offset: 0, tick: 0 }
    };
    if width == 0 {
        (Seq::empty(), scroll)
    } else if value.len() <= width {
        (value, ScrollView { key, offset: 0, tick: 0 })
    } else {
        let round = with_gap(value);
        let offset = known.offset % round.len();
        let tick = next_tick(known.tick);
        (
            window(round, offset as int, width),
            ScrollView {
                key,
                offset: if tick % 2 == 0 {
                    (offset + 1) % round.len()
                } else {
                    known.offset
                },
                tick,
            },
        )
    }
}

fn look(round: &Vec<char>, offset: usize, width: usize) -> (r: String)
    requires
        width <= round@.len(),
        offset < round@.len(),
    ensures
        r@ == window(round@, offset as int, width as nat),
{
    let mut seen: Vec<char> = Vec::new();
    let mut i: usize = 0;
    let len: usize = round.len();
    let ahead: usize = len - offset;
    while i < width
        invariant
            i <= width <= round@.len(),
            offset < round@.len(),
            len == round@.len(),
            ahead == len - offset,
            seen@ == window(round@, offset as int, i as nat),
        decreases width - i,
    {
        let at: usize = if i < ahead {
            offset + i
        } else {
            i - ahead
        };
        proof {
            let len = round@.len() as int;
            if i < ahead {
                vstd::arithmetic::div_mod::lemma_small_mod((offset + i) as nat, round@.len());
            } else {
                vstd::arithmetic::div_mod::lemma_mod_add_multiples_vanish(i - ahead, len);
                vstd::arithmetic::div_mod::lemma_small_mod((i - ahead) as nat, round@.len());
            }
        }
        seen.push(round[at]);
        assert(seen@ =~= window(round@, offset as int, (i + 1) as nat));
        i += 1;
    }
    text_of(&seen)
}

/// Shows a text in a width, and moves it where it is too long.
pub fn scrolling_text(scroll: &mut Scroll, value: &str, width: usize) -> (r: String)
    ensures
        (r@, final(scroll)@) == scrolled(old(scroll)@, value@, width as nat),
{
    if width == 0 {
        let nothing = String::new();
        assert(nothing@ =~= Seq::<char>::empty());
        return nothing;
    }
    let mut key = u64_text(width as u64);
    key.append(":");
    key.append(value);
    if !same_text(scroll.key.as_str(), key.as_str()) {
        scroll.key = key;
        scroll.offset = 0;
        scroll.tick = 0;
    }
    let mut chars = chars_of(value);
    if chars.len() <= width {
        scroll.offset = 0;
        scroll.tick = 0;
        return value.to_owned();
    }
    chars.push(' ');
    chars.push(' ');
    chars.push(' ');
    assert(chars@ =~= with_gap(value@));
    let offset: usize = scroll.offset % chars.len();
    let rendered = look(&chars, offset, width);
    scroll.tick = if scroll.tick == 255 {
        0
    } else {
        scroll.tick + 1
    };
    if scroll.tick % 2 == 0 {
        scroll.offset = (offset + 1) % chars.len();
    }
    rendered
}

/// What is seen of a text is no wider than it may be, and is the whole text where
/// that fits.
pub proof fn seen_text_fits(scroll: ScrollView, value: Seq<char>, width: nat)
    ensures
        scrolled(scroll, value, width).0.len() <= width,
        value.len() <= width ==> scrolled(scroll, value, width).0 == value,
        value.len() > width > 0 ==> scrolled(scroll, value, width).0.len() == width,
{
    if width == 0 {
        assert(value.len() <= width ==> value =~= Seq::<char>::empty());
    }
}

/// How far a text that was not shown before has moved when it was shown some
/// times.
pub open spec fn scrolled_times(value: Seq<char>, width: nat, times: nat) -> ScrollView
    decreases times,
{
    if times == 0 {
        ScrollView { key: scroll_key(value, width), offset: 0, tick: 0 }
    } else {
        scrolled(scrolled_times(value, width, (times - 1) as nat), value, width).1
    }
}

/// A text that is too long moves by one character with every second time it is
/// shown, and begins anew when it and the gap after it have gone by.
pub proof fn long_text_goes_round(value: Seq<char>, width: nat, times: nat)
    requires
        0 < width < value.len(),
    ensures
        scrolled_times(value, width, times) == (ScrollView {
            key: scroll_key(value, width),
            offset: (times / 2) % (value.len() + 3),
            tick: (times % 256) as u8,
        }),
        scrolled(scrolled_times(value, width, times), value, width).0 == window(
            with_gap(value),
            ((times / 2) % (value.len() + 3)) as int,
            width,
        ),
    decreases times,
{
    let len = (value.len() + 3) as int;
    assert(with_gap(value).len() == len);
    if times > 0 {
        let before = (times - 1) as nat;
        long_text_goes_round(value, width, before);
        let offset = (before / 2) as int % len;
        vstd::arithmetic::div_mod::lemma_mod_bound(before as int / 2, len);
        vstd::arithmetic::div_mod::lemma_small_mod(offset as nat, len as nat);
        assert(next_tick((before % 256) as u8) == (times % 256) as u8);
        if times % 2 == 0 {
            assert(times / 2 == before / 2 + 1);
            vstd::arithmetic::div_mod::lemma_add_mod_noop(before as int / 2, 1, len);
            vstd::arithmetic::div_mod::lemma_small_mod(1, len as nat);
        } else {
            assert(times / 2 == before / 2);
        }
    } else {
        vstd::arithmetic::div_mod::lemma_small_mod(0, len as nat);
    }
    let offset = (times / 2) as int % len;
    vstd::arithmetic::div_mod::lemma_mod_bound(times as int / 2, len);
    vstd::arithmetic::div_mod::lemma_small_mod(offset as nat, len as nat);
}

impl App {
    /// Whose calls are shown.
    pub open spec fn calls_of(self) -> Seq<char> {
        match self.call_order {
            Some(order) => if self.calls@.len() > 0 {
                self.calls@[0].op_name@
            } else {
                "call_order "@ + int_text(order as int)
            },
            None => match self.selected_op {
                Some(op) => op@,
                None => "all kernels"@,
            },
        }
    }

    /// Whose calls are shown.
    pub fn calls_title_detail(&self) -> (r: String)
        ensures
            r@ == self.calls_of(),
    {
        match self.call_order {
            Some(order) => if self.calls.len() > 0 {
                self.calls[0].op_name.clone()
            } else {
                let mut out = "call_order ".to_owned();
                out.append(i64_text(order).as_str());
                out
            },
            None => match &self.selected_op {
                Some(op) => op.clone(),
                None => "all kernels".to_owned(),
            },
        }
    }

    /// What the title of the calls begins with.
    pub open spec fn calls_prefix(self) -> Seq<char> {
        if self.focus == Focus::Calls {
            "Calls * - "@
        } else {
            "Calls - "@
        }
    }
}

/// The room for a title between the corners of a table.
pub open spec fn title_room(area_width: u16) -> nat {
    if area_width < 2 {
        0
    } else {
        (area_width - 2) as nat
    }
}

/// The title of the calls, and how far it has moved then.
pub open spec fn titled(app: App, area_width: u16) -> (Seq<char>, ScrollView) {
    let prefix = app.calls_prefix();
    let room = title_room(area_width);
    if room <= prefix.len() {
        (truncated(prefix, room), app.scroll@)
    } else {
        let (detail, scroll) = scrolled(
            app.scroll@,
            app.calls_of(),
            (room - prefix.len()) as nat,
        );
        (prefix + detail, scroll)
    }
}

/// The title of the calls.
pub fn calls_title(app: &mut App, area_width: u16) -> (r: String)
    requires
        old(app).well_formed(),
    ensures
        (r@, final(app).scroll@) == titled(*old(app), area_width),
        final(app).well_formed(),
        final(app).control() == old(app).control(),
        final(app).same_tables(App { scroll: final(app).scroll, ..*old(app) }),
{
    let prefix: &'static str = if app.focus == Focus::Calls {
        "Calls * - "
    } else {
        "Calls - "
    };
    let room: usize = if area_width < 2 {
        0
    } else {
        (area_width - 2) as usize
    };
    let prefix_len: usize = chars_of(prefix).len();
    if room <= prefix_len {
        return trunc(prefix, room);
    }
    let detail = app.calls_title_detail();
    let detail = scrolling_text(&mut app.scroll, detail.as_str(), room - prefix_len);
    let mut title = prefix.to_owned();
    title.append(detail.as_str());
    title
}

/// The title of the calls fits between the corners of the table, but for a tilde
/// where there is no room at all.
pub proof fn calls_title_fits(app: App, area_width: u16)
    ensures
        titled(app, area_width).0.len() <= if title_room(area_width) == 0 {
            1
        } else {
            title_room(area_width)
        },
{
    let prefix = app.calls_prefix();
    let room = title_room(area_width);
    if room > prefix.len() {
        seen_text_fits(app.scroll@, app.calls_of(), (room - prefix.len()) as nat);
    }
}

/// What is seen of a text that is too long, when it was shown some times, is the text
/// with a gap of three blanks behind it, again and again, from the place on to which it
/// has moved: by one character with every second time.
pub proof fn long_texts_are_seen_going_by(value: Seq<char>, width: nat, times: nat, i: int)
    requires
        0 < width < value.len(),
        0 <= i < width,
    ensures
        ({
            let seen = scrolled(scrolled_times(value, width, times), value, width).0;
            let at = (times / 2 + i) % (value.len() as int + 3);
            &&& seen.len() == width
            &&& seen[i] == (if at < value.len() {
                value[at]
            } else {
                ' '
            })
        }),
{
    long_text_goes_round(value, width, times);
    let len = (value.len() + 3) as int;
    let offset = (times as int / 2) % len;
    vstd::arithmetic::div_mod::lemma_add_mod_noop_right(i, times as int / 2, len);
    assert((i + offset) % len == (i + times as int / 2) % len);
    vstd::arithmetic::div_mod::lemma_mod_bound(times as int / 2 + i, len);
}

/// A text that fits is seen as it is, and one that changes is seen from its beginning.
pub proof fn texts_are_seen_from_their_beginning(scroll: ScrollView, value: Seq<char>, width: nat)
    requires
        width > 0,
    ensures
        value.len() <= width ==> scrolled(scroll, value, width).0 == value,
        value.len() > width && scroll.key != nat_text(width) + ":"@ + value ==> scrolled(
            scroll,
            value,
            width,
        ).0 == value.take(width as int),
{
    if value.len() > width && scroll.key != scroll_key(value, width) {
        let round = with_gap(value);
        vstd::arithmetic::div_mod::lemma_small_mod(0, round.len());
        let seen = scrolled(scroll, value, width).0;
        assert forall|i: int| 0 <= i < width implies seen[i] == value[i] by {
            vstd::arithmetic::div_mod::lemma_small_mod(i as nat, round.len());
        }
        assert(seen =~= value.take(width as int));
    }
}

/// The title of the calls says whose calls they are: those of the call that is asked
/// for, of the operation that is selected, or of all. A star stands in it where the keys
/// move among the calls.
pub proof fn titles_say_whose_calls_are_shown(app: App, area_width: u16)
    ensures
        app.call_order is Some && app.calls@.len() > 0 ==> app.calls_of()
            == app.calls@[0].op_name@,
        app.call_order is Some && app.calls@.len() == 0 ==> app.calls_of() == "call_order "@
            + int_text(app.call_order->0 as int),
        app.call_order is None && app.selected_op is Some ==> app.calls_of()
            == app.selected_op->0@,
        app.call_order is None && app.selected_op is None ==> app.calls_of() == "all kernels"@,
        ({
            let prefix = if app.focus == Focus::Calls {
                "Calls * - "@
            } else {
                "Calls - "@
            };
            let title = titled(app, area_width).0;
            prefix.len() + app.calls_of().len() + 2 <= area_width && app.calls_of().len() > 0
                ==> title == prefix + app.calls_of()
        }),
{
}

} // verus!
