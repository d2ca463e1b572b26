//! The fixed-geometry dashboard: three bounded row buffers (announcements,
//! telemetry, debug), each drawn as a bordered box, repainted in place.

use crate::control::State;
use crate::numfmt::{fmt_fixed2, fmt_u64, spec_dec, spec_fixed2};
use crate::pad::{
    lemma_pad_width, spec_left_pad, spec_right_pad, str_left_pad, str_right_pad,
};
use crate::telemetry::Telemetry;
use std::collections::VecDeque;
use vstd::prelude::*;

verus! {

/// A terminal dashboard of bordered panels. `width` counts character
/// columns including the two border columns; `length` is the total number
/// of terminal rows the rendered block occupies. Each stored row is already
/// formatted to the interior width, `width - 4` (two border characters and
/// two interior padding spaces).
pub struct Terminal {
    pub width: usize,
    pub length: usize,
    pub announcements: VecDeque<String>,
    pub max_announcements: usize,
    pub telemetries: VecDeque<String>,
    pub max_telemetry: usize,
    pub debugs: VecDeque<String>,
    pub max_debug: usize,
}

/// The character sequences a row buffer holds.
pub open spec fn rows_of(d: Seq<String>) -> Seq<Seq<char>> {
    d.map_values(|s: String| s@)
}

/// A blank interior row for a panel of the given total width.
pub open spec fn blank_row(width: int) -> Seq<char> {
    Seq::new((width - 4) as nat, |i: int| ' ')
}

/// The telemetry panel's derived row capacity: the telemetry panel absorbs
/// whatever vertical budget the two authoritative panels leave over, each
/// enabled panel also paying two border lines.
pub open spec fn spec_telemetry_capacity(length: int, max_announcements: int, max_debug: int) -> int {
    length - 2 - (if max_announcements > 0 {
        max_announcements + 2
    } else {
        0
    }) - (if max_debug > 0 {
        max_debug + 2
    } else {
        0
    })
}

/// One announcement post at the specification level: the oldest row (the
/// last) is discarded and the freshly padded message becomes row 0.
pub open spec fn spec_post(rows: Seq<Seq<char>>, msg: Seq<char>, width: int) -> Seq<Seq<char>> {
    let row = spec_right_pad(msg, width - 4, ' ');
    if rows.len() > 0 {
        seq![row] + rows.drop_last()
    } else {
        seq![row]
    }
}

impl Terminal {
    /// The announcements rows, most recent first.
    pub open spec fn ann_rows(self) -> Seq<Seq<char>> {
        rows_of(self.announcements@)
    }

    /// The telemetry rows, in their fixed display order.
    pub open spec fn tel_rows(self) -> Seq<Seq<char>> {
        rows_of(self.telemetries@)
    }

    /// The debug rows.
    pub open spec fn dbg_rows(self) -> Seq<Seq<char>> {
        rows_of(self.debugs@)
    }

    /// A well-formed dashboard: the geometry is consistent, the telemetry
    /// capacity is the derived quantity, the announcement buffer sits at
    /// its capacity, and every stored row fills the interior width.
    pub open spec fn wf(self) -> bool {
        &&& self.width >= 23
        &&& self.max_telemetry as int == spec_telemetry_capacity(
            self.length as int,
            self.max_announcements as int,
            self.max_debug as int,
        )
        &&& (self.max_announcements > 0 ==> self.announcements@.len()
            == self.max_announcements)
        &&& (self.max_announcements == 0 ==> self.announcements@.len() <= 1)
        &&& self.debugs@.len() == self.max_debug
        &&& (forall|i: int|
            0 <= i < self.announcements@.len() ==> (#[trigger] self.announcements@[i])@.len()
                == self.width - 4)
        &&& (forall|i: int|
            0 <= i < self.telemetries@.len() ==> (#[trigger] self.telemetries@[i])@.len()
                == self.width - 4)
        &&& (forall|i: int|
            0 <= i < self.debugs@.len() ==> (#[trigger] self.debugs@[i])@.len() == self.width
                - 4)
    }

    /// Build a dashboard. The telemetry panel's row capacity is derived
    /// from the vertical budget left by the other two panels, so the
    /// budget must cover the enabled panels and their borders; the width
    /// must fit a bordered telemetry row (18 label columns, a colon, and
    /// at least one value column, inside the borders and padding).
    pub fn new(length: usize, width: usize, max_announcements: usize, max_debug: usize) -> (r:
        Terminal)
        requires
            width >= 23,
            2 + (if max_announcements > 0 {
                max_announcements + 2
            } else {
                0
            }) + (if max_debug > 0 {
                max_debug + 2
            } else {
                0
            }) <= length,
        ensures
            r.wf(),
            r.width == width,
            r.length == length,
            r.max_announcements == max_announcements,
            r.max_debug == max_debug,
            r.max_telemetry as int == spec_telemetry_capacity(
                length as int,
                max_announcements as int,
                max_debug as int,
            ),
            r.ann_rows() == Seq::new(max_announcements as nat, |i: int| blank_row(width as int)),
            r.tel_rows() == Seq::new(r.max_telemetry as nat, |i: int| blank_row(width as int)),
            r.dbg_rows() == Seq::new(max_debug as nat, |i: int| blank_row(width as int)),
    {
        let mut max_telemetry = length - 2;
        if max_announcements > 0 {
            max_telemetry = max_telemetry - (max_announcements + 2);
        }
        if max_debug > 0 {
            max_telemetry = max_telemetry - (max_debug + 2);
        }
        let announcements = blank_rows(max_announcements, width);
        let telemetries = blank_rows(max_telemetry, width);
        let debugs = blank_rows(max_debug, width);
        Terminal {
            width,
            length,
            announcements,
            max_announcements,
            telemetries,
            max_telemetry,
            debugs,
            max_debug,
        }
    }

    /// Post a message to the announcement feed: the message is padded to
    /// the interior width, the oldest row is discarded, and the new row
    /// becomes row 0. Messages older than the capacity are gone for good.
    pub fn announcement(&mut self, str: &str)
        requires
            old(self).wf(),
        ensures
            final(self).wf(),
            final(self).ann_rows() == spec_post(
                old(self).ann_rows(),
                str@,
                old(self).width as int,
            ),
            final(self).announcements@.len() == if old(self).announcements@.len() > 0 {
                old(self).announcements@.len()
            } else {
                1
            },
            final(self).width == old(self).width,
            final(self).length == old(self).length,
            final(self).max_announcements == old(self).max_announcements,
            final(self).max_telemetry == old(self).max_telemetry,
            final(self).max_debug == old(self).max_debug,
            final(self).telemetries == old(self).telemetries,
            final(self).debugs == old(self).debugs,
    {
        proof {
            reveal_strlit(" ");
        }
        let ghost before = self.announcements@;
        let _ = self.announcements.pop_back();
        let row = str_right_pad(str, self.width - 4, " ");
        proof {
            lemma_pad_width(str@, self.width - 4, ' ');
        }
        self.announcements.push_front(row);
        proof {
            assert(self.ann_rows() =~= spec_post(
                rows_of(before),
                str@,
                self.width as int,
            ));
        }
    }

    /// Replace the telemetry panel's contents with one freshly formatted
    /// row per tracked field, in the fixed display order. The row count is
    /// always ten; a panel configured with a different capacity under- or
    /// over-fills its box, which the caller must avoid.
    pub fn telemetry(&mut self, telemetry: &Telemetry)
        requires
            old(self).wf(),
        ensures
            final(self).wf(),
            final(self).tel_rows() == spec_telemetry_rows(*telemetry, old(self).width as int),
            final(self).telemetries@.len() == 10,
            final(self).width == old(self).width,
            final(self).length == old(self).length,
            final(self).max_announcements == old(self).max_announcements,
            final(self).max_telemetry == old(self).max_telemetry,
            final(self).max_debug == old(self).max_debug,
            final(self).announcements == old(self).announcements,
            final(self).debugs == old(self).debugs,
    {
        let width = self.width;
        self.telemetries.clear();
        self.telemetries.push_back(field_row("Periapsis", telemetry.periapsis, width));
        self.telemetries.push_back(
            field_row("Time To Periapsis", telemetry.time_to_periapsis, width),
        );
        self.telemetries.push_back(field_row("Apoapsis", telemetry.apoapsis, width));
        self.telemetries.push_back(
            field_row("Time To Apoapsis", telemetry.time_to_apoapsis, width),
        );
        self.telemetries.push_back(field_row("Inclination", telemetry.inclination, width));
        self.telemetries.push_back(
            field_row("Dynamic Pressure", telemetry.dynamic_pressure, width),
        );
        self.telemetries.push_back(field_row("Surface Speed", telemetry.surface_speed, width));
        self.telemetries.push_back(field_row("Orbital Speed", telemetry.orbital_speed, width));
        self.telemetries.push_back(field_row("Sea Altitude", telemetry.mean_altitude, width));
        self.telemetries.push_back(
            field_row("Surface Altitude", telemetry.surface_altitude, width),
        );
        proof {
            assert(self.tel_rows() =~= spec_telemetry_rows(*telemetry, self.width as int));
        }
    }

    /// The top border of one panel box.
    pub fn top_line(&self) -> (r: String)
        requires
            self.width >= 2,
        ensures
            r@ == spec_top_line(self.width as int),
    {
        make_top_line(self.width)
    }

    /// The bottom border of one panel box.
    pub fn bot_line(&self) -> (r: String)
        requires
            self.width >= 2,
        ensures
            r@ == spec_bot_line(self.width as int),
    {
        make_bot_line(self.width)
    }

    /// Refresh the debug panel from the control state. No diagnostic
    /// producer is wired up yet, so the panel is left untouched.
    #[allow(unused_variables)]
    pub fn debug(&mut self, state: &State)
        ensures
            *final(self) == *old(self),
    {
    }

    /// The startup scroll: enough blank lines to push prior terminal
    /// content out of the block the dashboard will repaint in place.
    pub fn clear(&self) -> (r: String)
        ensures
            r@ == spec_repeat("\n"@, self.length as int),
    {
        repeat_str("\n", self.length)
    }

    /// One repaint: the cursor-up escape that returns to the top of the
    /// block, then every enabled panel in the fixed order announcements,
    /// telemetry, debug — each as a bordered box, the announcements
    /// panel with its freshest row plain and older rows dimmed.
    pub fn render(&self) -> (r: String)
        requires
            self.wf(),
        ensures
            r@ == spec_render(*self),
    {
        let mut r = String::from_str("\x1b[");
        let num = fmt_u64(self.length as u64);
        r.append(num.as_str());
        r.append("A");
        let ghost pre0 = r@;
        proof {
            assert(pre0 =~= "\x1b["@ + spec_dec(self.length as nat) + "A"@);
        }
        if self.max_announcements > 0 {
            let top = make_top_line(self.width);
            r.append(top.as_str());
            r.append("\n");
            let ghost pre = r@;
            let ghost rows = rows_of(self.announcements@);
            proof {
                assert(rows.take(0) =~= Seq::<Seq<char>>::empty());
                assert(r@ =~= pre + spec_ann_text(rows.take(0)));
            }
            let n = self.announcements.len();
            let mut i: usize = 0;
            while i < n
                invariant
                    i <= n,
                    n == self.announcements@.len(),
                    rows == rows_of(self.announcements@),
                    r@ == pre + spec_ann_text(rows.take(i as int)),
                decreases n - i,
            {
                let row = &self.announcements[i];
                r.append("│ ");
                if i != 0 {
                    r.append("\x1b[38;5;8m");
                }
                r.append(row.as_str());
                if i != 0 {
                    r.append("\x1b[0m");
                }
                r.append(" │\n");
                proof {
                    lemma_ann_text_snoc(rows, i as int);
                    assert(rows[i as int] == row@);
                    assert(r@ =~= pre + spec_ann_text(rows.take(i as int + 1)));
                }
                i = i + 1;
            }
            proof {
                assert(rows.take(n as int) =~= rows);
            }
            let bot = make_bot_line(self.width);
            r.append(bot.as_str());
            r.append("\n");
            proof {
                assert(r@ =~= pre0 + spec_panel(
                    spec_ann_text(rows_of(self.announcements@)),
                    self.width as int,
                ));
            }
        } else {
            proof {
                assert(r@ =~= pre0 + Seq::<char>::empty());
            }
        }
        let ghost pre1 = r@;
        proof {
            assert(pre1 == pre0 + (if self.max_announcements > 0 {
                spec_panel(spec_ann_text(rows_of(self.announcements@)), self.width as int)
            } else {
                Seq::<char>::empty()
            }));
        }
        if self.max_telemetry > 0 {
            append_plain_panel(&mut r, &self.telemetries, self.width);
        } else {
            proof {
                assert(r@ =~= pre1 + Seq::<char>::empty());
            }
        }
        let ghost pre2 = r@;
        proof {
            assert(pre2 == pre1 + (if self.max_telemetry > 0 {
                spec_panel(spec_rows_text(rows_of(self.telemetries@)), self.width as int)
            } else {
                Seq::<char>::empty()
            }));
        }
        if self.max_debug > 0 {
            append_plain_panel(&mut r, &self.debugs, self.width);
        } else {
            proof {
                assert(r@ =~= pre2 + Seq::<char>::empty());
            }
        }
        proof {
            assert(r@ == spec_render(*self));
        }
        r
    }
}

/// The feed after a whole sequence of posts, applied oldest first.
pub open spec fn spec_posts(rows: Seq<Seq<char>>, msgs: Seq<Seq<char>>, width: int) -> Seq<
    Seq<char>,
>
    decreases msgs.len(),
{
    if msgs.len() == 0 {
        rows
    } else {
        spec_posts(spec_post(rows, msgs.first(), width), msgs.drop_first(), width)
    }
}

/// Law, general shape: posting never changes the feed's row count; the
/// newest rows are the padded messages, most recent first; whatever rows
/// the messages have not yet evicted sit shifted behind them.
pub proof fn lemma_posts_shift(rows: Seq<Seq<char>>, msgs: Seq<Seq<char>>, width: int)
    requires
        rows.len() >= 1,
    ensures
        spec_posts(rows, msgs, width).len() == rows.len(),
        forall|i: int|
            0 <= i < rows.len() && i < msgs.len() ==> #[trigger] spec_posts(rows, msgs, width)[i]
                == spec_right_pad(msgs[msgs.len() - 1 - i], width - 4, ' '),
        forall|i: int|
            msgs.len() <= i < rows.len() ==> #[trigger] spec_posts(rows, msgs, width)[i]
                == rows[i - msgs.len()],
    decreases msgs.len(),
{
    if msgs.len() > 0 {
        let m = msgs.len() as int;
        let rows2 = spec_post(rows, msgs.first(), width);
        assert(rows2.len() == rows.len());
        lemma_posts_shift(rows2, msgs.drop_first(), width);
        let res = spec_posts(rows, msgs, width);
        assert(res == spec_posts(rows2, msgs.drop_first(), width));
        assert forall|i: int|
            0 <= i < rows.len() && i < m implies #[trigger] res[i] == spec_right_pad(
            msgs[m - 1 - i],
            width - 4,
            ' ',
        ) by {
            if i < m - 1 {
                assert(res[i] == spec_right_pad(msgs.drop_first()[m - 2 - i], width - 4, ' '));
                assert(msgs.drop_first()[m - 2 - i] == msgs[m - 1 - i]);
            } else {
                assert(res[i] == rows2[i - (m - 1)]);
                assert(rows2[0] == spec_right_pad(msgs.first(), width - 4, ' '));
            }
        };
        assert forall|i: int| m <= i < rows.len() implies #[trigger] res[i] == rows[i - m] by {
            assert(res[i] == rows2[i - m + 1]);
            assert(rows2[i - m + 1] == rows.drop_last()[i - m]);
            assert(rows.drop_last()[i - m] == rows[i - m]);
        };
    }
}

/// Law: once at least as many messages as the feed's capacity have been
/// posted, the feed holds exactly the most recent `capacity` messages,
/// the newest at row 0, and every older message is discarded.
pub proof fn lemma_feed_retention(rows: Seq<Seq<char>>, msgs: Seq<Seq<char>>, width: int)
    requires
        rows.len() >= 1,
        msgs.len() >= rows.len(),
    ensures
        spec_posts(rows, msgs, width).len() == rows.len(),
        forall|i: int|
            0 <= i < rows.len() ==> #[trigger] spec_posts(rows, msgs, width)[i]
                == spec_right_pad(msgs[msgs.len() - 1 - i], width - 4, ' '),
{
    lemma_posts_shift(rows, msgs, width);
}

/// Law: `render` is a pure function of the dashboard state, so two
/// repaints with no buffer mutation in between write byte-identical
/// output, the leading cursor-reposition escape included.
pub proof fn lemma_render_deterministic(t: Terminal, r1: Seq<char>, r2: Seq<char>)
    requires
        r1 == spec_render(t),
        r2 == spec_render(t),
    ensures
        r1 == r2,
{
}

/// `s` repeated `n` times.
pub open spec fn spec_repeat(s: Seq<char>, n: int) -> Seq<char>
    decreases n,
{
    if n <= 0 {
        Seq::empty()
    } else {
        spec_repeat(s, n - 1) + s
    }
}

/// The top border of a panel: corner, a horizontal run, corner.
pub open spec fn spec_top_line(width: int) -> Seq<char> {
    "╭"@ + spec_repeat("─"@, width - 2) + "╮"@
}

/// The bottom border of a panel: corner, a horizontal run, corner.
pub open spec fn spec_bot_line(width: int) -> Seq<char> {
    "╰"@ + spec_repeat("─"@, width - 2) + "╯"@
}

/// A row drawn inside the box: border, padding space, the content, padding
/// space, border, newline.
pub open spec fn spec_boxed(content: Seq<char>) -> Seq<char> {
    "│ "@ + content + " │\n"@
}

/// A row drawn dimmed: the content is wrapped in the dim-style escape
/// sequence before boxing. Purely a presentation affordance.
pub open spec fn spec_dimmed(content: Seq<char>) -> Seq<char> {
    spec_boxed("\x1b[38;5;8m"@ + content + "\x1b[0m"@)
}

/// The body of a plain panel: every row boxed, in order.
pub open spec fn spec_rows_text(rows: Seq<Seq<char>>) -> Seq<char>
    decreases rows.len(),
{
    if rows.len() == 0 {
        Seq::empty()
    } else {
        spec_boxed(rows.first()) + spec_rows_text(rows.drop_first())
    }
}

/// The body of rows drawn dimmed, in order.
pub open spec fn spec_dim_rows_text(rows: Seq<Seq<char>>) -> Seq<char>
    decreases rows.len(),
{
    if rows.len() == 0 {
        Seq::empty()
    } else {
        spec_dimmed(rows.first()) + spec_dim_rows_text(rows.drop_first())
    }
}

/// The announcements body: the freshest row plain, every older row dimmed.
pub open spec fn spec_ann_text(rows: Seq<Seq<char>>) -> Seq<char> {
    if rows.len() == 0 {
        Seq::empty()
    } else {
        spec_boxed(rows.first()) + spec_dim_rows_text(rows.drop_first())
    }
}

/// One bordered panel, with the newline `render` emits after it.
pub open spec fn spec_panel(body: Seq<char>, width: int) -> Seq<char> {
    spec_top_line(width) + "\n"@ + body + spec_bot_line(width) + "\n"@
}

/// Everything one repaint writes: the cursor-up escape returning to the
/// top of the block, then each enabled panel in the fixed order
/// announcements, telemetry, debug. A disabled panel emits nothing.
pub open spec fn spec_render(t: Terminal) -> Seq<char> {
    "\x1b["@ + spec_dec(t.length as nat) + "A"@ + (if t.max_announcements > 0 {
        spec_panel(spec_ann_text(rows_of(t.announcements@)), t.width as int)
    } else {
        Seq::empty()
    }) + (if t.max_telemetry > 0 {
        spec_panel(spec_rows_text(rows_of(t.telemetries@)), t.width as int)
    } else {
        Seq::empty()
    }) + (if t.max_debug > 0 {
        spec_panel(spec_rows_text(rows_of(t.debugs@)), t.width as int)
    } else {
        Seq::empty()
    })
}

proof fn lemma_rows_text_snoc(rows: Seq<Seq<char>>, i: int)
    requires
        0 <= i < rows.len(),
    ensures
        spec_rows_text(rows.take(i + 1)) == spec_rows_text(rows.take(i)) + spec_boxed(rows[i]),
    decreases i,
{
    if i == 0 {
        assert(rows.take(1).len() == 1);
        assert(rows.take(1)[0] == rows[0]);
        assert(rows.take(0).len() == 0);
        assert(rows.take(1).drop_first() =~= Seq::<Seq<char>>::empty());
        assert(spec_rows_text(rows.take(1)) == spec_boxed(rows[0]) + spec_rows_text(
            rows.take(1).drop_first(),
        ));
        assert(spec_rows_text(rows.take(1)) =~= spec_rows_text(rows.take(0)) + spec_boxed(
            rows[0],
        ));
    } else {
        let rr = rows.drop_first();
        lemma_rows_text_snoc(rr, i - 1);
        assert(rows.take(i + 1).drop_first() =~= rr.take(i));
        assert(rows.take(i).drop_first() =~= rr.take(i - 1));
        assert(spec_rows_text(rows.take(i + 1)) =~= spec_rows_text(rows.take(i)) + spec_boxed(
            rows[i],
        ));
    }
}

proof fn lemma_dim_rows_text_snoc(rows: Seq<Seq<char>>, i: int)
    requires
        0 <= i < rows.len(),
    ensures
        spec_dim_rows_text(rows.take(i + 1)) == spec_dim_rows_text(rows.take(i)) + spec_dimmed(
            rows[i],
        ),
    decreases i,
{
    if i == 0 {
        assert(rows.take(1).len() == 1);
        assert(rows.take(1)[0] == rows[0]);
        assert(rows.take(0).len() == 0);
        assert(rows.take(1).drop_first() =~= Seq::<Seq<char>>::empty());
        assert(spec_dim_rows_text(rows.take(1)) == spec_dimmed(rows[0]) + spec_dim_rows_text(
            rows.take(1).drop_first(),
        ));
        assert(spec_dim_rows_text(rows.take(1)) =~= spec_dim_rows_text(rows.take(0))
            + spec_dimmed(rows[0]));
    } else {
        let rr = rows.drop_first();
        lemma_dim_rows_text_snoc(rr, i - 1);
        assert(rows.take(i + 1).drop_first() =~= rr.take(i));
        assert(rows.take(i).drop_first() =~= rr.take(i - 1));
        assert(spec_dim_rows_text(rows.take(i + 1)) =~= spec_dim_rows_text(rows.take(i))
            + spec_dimmed(rows[i]));
    }
}

proof fn lemma_ann_text_snoc(rows: Seq<Seq<char>>, i: int)
    requires
        0 <= i < rows.len(),
    ensures
        spec_ann_text(rows.take(i + 1)) == spec_ann_text(rows.take(i)) + (if i == 0 {
            spec_boxed(rows[0])
        } else {
            spec_dimmed(rows[i])
        }),
{
    if i == 0 {
        assert(rows.take(1).len() == 1);
        assert(rows.take(1)[0] == rows[0]);
        assert(rows.take(0).len() == 0);
        assert(rows.take(1).drop_first() =~= Seq::<Seq<char>>::empty());
        assert(spec_ann_text(rows.take(1)) == spec_boxed(rows[0]) + spec_dim_rows_text(
            rows.take(1).drop_first(),
        ));
        assert(spec_ann_text(rows.take(1)) =~= spec_ann_text(rows.take(0)) + spec_boxed(
            rows[0],
        ));
    } else {
        let rr = rows.drop_first();
        lemma_dim_rows_text_snoc(rr, i - 1);
        assert(rows.take(i + 1).drop_first() =~= rr.take(i));
        assert(rows.take(i).drop_first() =~= rr.take(i - 1));
        assert(spec_ann_text(rows.take(i + 1)) =~= spec_ann_text(rows.take(i)) + spec_dimmed(
            rows[i],
        ));
    }
}

/// `s` repeated `n` times as an owned string.
fn repeat_str(s: &str, n: usize) -> (r: String)
    ensures
        r@ == spec_repeat(s@, n as int),
{
    let mut r = String::new();
    proof {
        assert(r@ =~= spec_repeat(s@, 0));
    }
    let mut k: usize = 0;
    while k < n
        invariant
            k <= n,
            r@ == spec_repeat(s@, k as int),
        decreases n - k,
    {
        r.append(s);
        proof {
            assert(r@ == spec_repeat(s@, k as int + 1));
        }
        k = k + 1;
    }
    r
}

/// The top border for a panel of the given total width.
fn make_top_line(width: usize) -> (r: String)
    requires
        width >= 2,
    ensures
        r@ == spec_top_line(width as int),
{
    let mut r = String::from_str("╭");
    let run = repeat_str("─", width - 2);
    r.append(run.as_str());
    r.append("╮");
    proof {
        assert(r@ =~= spec_top_line(width as int));
    }
    r
}

/// The bottom border for a panel of the given total width.
fn make_bot_line(width: usize) -> (r: String)
    requires
        width >= 2,
    ensures
        r@ == spec_bot_line(width as int),
{
    let mut r = String::from_str("╰");
    let run = repeat_str("─", width - 2);
    r.append(run.as_str());
    r.append("╯");
    proof {
        assert(r@ =~= spec_bot_line(width as int));
    }
    r
}

/// Append one plain bordered panel (top border, each row boxed, bottom
/// border) to the output being built.
fn append_plain_panel(r: &mut String, d: &VecDeque<String>, width: usize)
    requires
        width >= 2,
    ensures
        final(r)@ == old(r)@ + spec_panel(spec_rows_text(rows_of(d@)), width as int),
{
    let top = make_top_line(width);
    r.append(top.as_str());
    r.append("\n");
    let ghost pre = r@;
    let ghost rows = rows_of(d@);
    proof {
        assert(rows.take(0) =~= Seq::<Seq<char>>::empty());
        assert(r@ =~= pre + spec_rows_text(rows.take(0)));
    }
    let n = d.len();
    let mut i: usize = 0;
    while i < n
        invariant
            i <= n,
            n == d@.len(),
            rows == rows_of(d@),
            r@ == pre + spec_rows_text(rows.take(i as int)),
        decreases n - i,
    {
        let row = &d[i];
        r.append("│ ");
        r.append(row.as_str());
        r.append(" │\n");
        proof {
            lemma_rows_text_snoc(rows, i as int);
            assert(rows[i as int] == row@);
            assert(r@ =~= pre + spec_rows_text(rows.take(i as int + 1)));
        }
        i = i + 1;
    }
    proof {
        assert(rows.take(n as int) =~= rows);
    }
    let bot = make_bot_line(width);
    r.append(bot.as_str());
    r.append("\n");
    proof {
        assert(r@ =~= old(r)@ + spec_panel(spec_rows_text(rows_of(d@)), width as int));
    }
}

/// One telemetry row: the label right-padded to the 18-column label field,
/// a colon, then the two-decimal value left-padded (right-aligned) to the
/// rest of the interior width.
pub open spec fn spec_row(label: Seq<char>, v: int, width: int) -> Seq<char> {
    spec_right_pad(label, 18, ' ') + seq![':'] + spec_left_pad(spec_fixed2(v), width - 23, ' ')
}

/// The ten telemetry rows for a snapshot, in the fixed display order.
pub open spec fn spec_telemetry_rows(t: Telemetry, width: int) -> Seq<Seq<char>> {
    seq![
        spec_row("Periapsis"@, t.periapsis as int, width),
        spec_row("Time To Periapsis"@, t.time_to_periapsis as int, width),
        spec_row("Apoapsis"@, t.apoapsis as int, width),
        spec_row("Time To Apoapsis"@, t.time_to_apoapsis as int, width),
        spec_row("Inclination"@, t.inclination as int, width),
        spec_row("Dynamic Pressure"@, t.dynamic_pressure as int, width),
        spec_row("Surface Speed"@, t.surface_speed as int, width),
        spec_row("Orbital Speed"@, t.orbital_speed as int, width),
        spec_row("Sea Altitude"@, t.mean_altitude as int, width),
        spec_row("Surface Altitude"@, t.surface_altitude as int, width),
    ]
}

/// Format one telemetry row to exactly the interior width.
fn field_row(label: &str, v: i64, width: usize) -> (r: String)
    requires
        width >= 23,
    ensures
        r@ == spec_row(label@, v as int, width as int),
        r@.len() == width - 4,
{
    proof {
        reveal_strlit(" ");
        reveal_strlit(":");
    }
    let mut r = str_right_pad(label, 18, " ");
    let value = fmt_fixed2(v);
    let cell = str_left_pad(value.as_str(), width - 23, " ");
    r.append(":");
    r.append(cell.as_str());
    proof {
        lemma_pad_width(label@, 18, ' ');
        lemma_pad_width(value@, width - 23, ' ');
        assert(r@ =~= spec_row(label@, v as int, width as int));
    }
    r
}

/// A deque of `n` blank rows for a panel of the given total width.
fn blank_rows(n: usize, width: usize) -> (r: VecDeque<String>)
    requires
        width >= 4,
    ensures
        rows_of(r@) == Seq::new(n as nat, |i: int| blank_row(width as int)),
        r@.len() == n,
        forall|i: int| 0 <= i < n ==> (#[trigger] r@[i])@ == blank_row(width as int),
{
    let mut d: VecDeque<String> = VecDeque::new();
    let mut k: usize = 0;
    while k < n
        invariant
            k <= n,
            width >= 4,
            d@.len() == k,
            forall|i: int| 0 <= i < k ==> (#[trigger] d@[i])@ == blank_row(width as int),
        decreases n - k,
    {
        proof {
            reveal_strlit("");
            reveal_strlit(" ");
        }
        let row = str_right_pad("", width - 4, " ");
        proof {
            assert(""@ =~= Seq::<char>::empty());
            assert(row@ =~= blank_row(width as int));
        }
        d.push_back(row);
        k = k + 1;
    }
    proof {
        assert(rows_of(d@) =~= Seq::new(n as nat, |i: int| blank_row(width as int)));
    }
    d
}

} // verus!
