use vstd::prelude::*;

use crate::message::{spec_height, spec_left_pad, spec_msg_width, Chat, Message, MessageModel};

verus! {

/// Rows of blank space left between two stacked message boxes.
pub const MESSAGE_Y_PADDING: usize = 1;

/// One draw instruction of the layout engine: where in the viewport the
/// box of the message at `index` is drawn, how large it is after cropping,
/// and how many of its top rows are hidden.
#[derive(Debug, Clone, Copy, PartialEq, Eq, Structural)]
pub struct Region {
    /// The position of the message in the transcript.
    pub index: usize,
    /// Leftmost column of the box.
    pub x: usize,
    /// Topmost row of the box.
    pub y: usize,
    /// Columns the box spans.
    pub width: usize,
    /// Rows the box spans after cropping.
    pub height: usize,
    /// Rows hidden from the top of the box; zero when it is fully visible.
    pub crop_lines: usize,
}

/// The mathematical value of a `Region`.
pub struct RegionModel {
    pub index: nat,
    pub x: nat,
    pub y: nat,
    pub width: nat,
    pub height: nat,
    pub crop_lines: nat,
}

impl View for Region {
    type V = RegionModel;

    open spec fn view(&self) -> RegionModel {
        RegionModel {
            index: self.index as nat,
            x: self.x as nat,
            y: self.y as nat,
            width: self.width as nat,
            height: self.height as nat,
            crop_lines: self.crop_lines as nat,
        }
    }
}

impl Region {
    /// Whether the top border row of this box is drawn: exactly when no
    /// rows of the box are cropped away.
    pub fn draws_top_border(&self) -> (r: bool)
        ensures
            r == (self.crop_lines == 0),
    {
        self.crop_lines == 0
    }
}

/// The full rendered height of a message in a viewport `total_width`
/// columns wide: its box width follows from its role's indentation.
pub open spec fn spec_full_height(m: MessageModel, total_width: nat) -> nat {
    spec_height(m.content, spec_msg_width(total_width, m.role))
}

/// The region the newest message of `msgs` gets when `remaining` rows of
/// the viewport are still free above the current bottom boundary: anchored
/// to that boundary, cropped from the top by whatever does not fit.
pub open spec fn spec_region(msgs: Seq<MessageModel>, total_width: nat, remaining: nat) -> RegionModel
    recommends
        msgs.len() > 0,
{
    let m = msgs.last();
    let full = spec_full_height(m, total_width);
    let y = if remaining >= full {
        (remaining - full) as nat
    } else {
        0nat
    };
    let crop = if full >= remaining {
        (full - remaining) as nat
    } else {
        0nat
    };
    RegionModel {
        index: (msgs.len() - 1) as nat,
        x: spec_left_pad(m.role),
        y: y,
        width: spec_msg_width(total_width, m.role),
        height: (full - crop) as nat,
        crop_lines: crop,
    }
}

/// The rows still free above a box whose top row is `y`, once the blank
/// row separating it from the next box above is taken; saturating at zero.
pub open spec fn spec_next_remaining(y: nat) -> nat {
    if y >= MESSAGE_Y_PADDING {
        (y - MESSAGE_Y_PADDING) as nat
    } else {
        0nat
    }
}

/// The layout of a transcript: regions for the messages of `msgs`, newest
/// first, packed upward from the bottom of `remaining` free rows. The
/// newest message always gets a region; older messages follow until the
/// free rows above the last-placed box run out.
pub open spec fn spec_layout(msgs: Seq<MessageModel>, total_width: nat, remaining: nat) -> Seq<
    RegionModel,
>
    decreases msgs.len(),
{
    if msgs.len() == 0 {
        Seq::empty()
    } else {
        let reg = spec_region(msgs, total_width, remaining);
        let rem2 = spec_next_remaining(reg.y);
        if rem2 == 0 {
            seq![reg]
        } else {
            seq![reg] + spec_layout(msgs.drop_last(), total_width, rem2)
        }
    }
}

/// Law: in any viewport of height at least one, a non-empty transcript's
/// newest message gets a region, that region ends exactly at the bottom of
/// the viewport, and it is cropped exactly when the message's full height
/// alone exceeds the viewport height.
pub proof fn lemma_newest_message_bottom_anchored(msgs: Seq<MessageModel>, w: nat, h: nat)
    requires
        h >= 1,
        msgs.len() > 0,
    ensures
        spec_layout(msgs, w, h).len() > 0,
        spec_layout(msgs, w, h)[0].index == msgs.len() - 1,
        spec_layout(msgs, w, h)[0].y + spec_layout(msgs, w, h)[0].height == h,
        spec_layout(msgs, w, h)[0].crop_lines == 0 <==> spec_full_height(msgs.last(), w) <= h,
{
    let reg = spec_region(msgs, w, h);
    assert(spec_layout(msgs, w, h)[0] == reg);
}

/// Law: every emitted region points at a message of the transcript, hides
/// at most that message's full height, and spans exactly the full height
/// minus the hidden rows.
pub proof fn lemma_regions_crop_bounded(msgs: Seq<MessageModel>, w: nat, h: nat)
    ensures
        forall|k: int|
            0 <= k < spec_layout(msgs, w, h).len() ==> {
                let reg = #[trigger] spec_layout(msgs, w, h)[k];
                &&& reg.index < msgs.len()
                &&& reg.crop_lines <= spec_full_height(msgs[reg.index as int], w)
                &&& reg.height == spec_full_height(msgs[reg.index as int], w) - reg.crop_lines
            },
    decreases msgs.len(),
{
    if msgs.len() == 0 {
        return ;
    }
    let reg0 = spec_region(msgs, w, h);
    let rem2 = spec_next_remaining(reg0.y);
    let tail = msgs.drop_last();
    if rem2 == 0 {
        assert(spec_layout(msgs, w, h) == seq![reg0]);
    } else {
        lemma_regions_crop_bounded(tail, w, rem2);
        assert forall|k: int| 0 <= k < spec_layout(msgs, w, h).len() implies {
            let reg = #[trigger] spec_layout(msgs, w, h)[k];
            &&& reg.index < msgs.len()
            &&& reg.crop_lines <= spec_full_height(msgs[reg.index as int], w)
            &&& reg.height == spec_full_height(msgs[reg.index as int], w) - reg.crop_lines
        } by {
            if k > 0 {
                let reg = spec_layout(msgs, w, h)[k];
                assert(reg == spec_layout(tail, w, rem2)[k - 1]);
                assert(tail[reg.index as int] == msgs[reg.index as int]);
            }
        }
    }
}

/// Law: the layout engine is a pure function: two region lists computed
/// from the same transcript and the same viewport are identical.
pub proof fn lemma_layout_deterministic(
    msgs: Seq<MessageModel>,
    w: nat,
    h: nat,
    r1: Seq<RegionModel>,
    r2: Seq<RegionModel>,
)
    requires
        r1 == spec_layout(msgs, w, h),
        r2 == spec_layout(msgs, w, h),
    ensures
        r1 == r2,
{
}

/// How many regions of a layout are visible at all: those that kept at
/// least one row after cropping.
pub open spec fn visible_count(regions: Seq<RegionModel>) -> nat
    decreases regions.len(),
{
    if regions.len() == 0 {
        0
    } else {
        (if regions[0].height > 0 {
            1nat
        } else {
            0nat
        }) + visible_count(regions.drop_first())
    }
}

proof fn lemma_visible_count_cons(reg: RegionModel, rest: Seq<RegionModel>)
    ensures
        visible_count(seq![reg] + rest) == (if reg.height > 0 {
            1nat
        } else {
            0nat
        }) + visible_count(rest),
{
    let s = seq![reg] + rest;
    assert(s[0] == reg);
    assert(s.drop_first() =~= rest);
}

/// Law: making the viewport taller, with the transcript and its width
/// unchanged, never lowers the number of visible regions.
pub proof fn lemma_taller_viewport_keeps_visible(msgs: Seq<MessageModel>, w: nat, h1: nat, h2: nat)
    requires
        h1 <= h2,
    ensures
        visible_count(spec_layout(msgs, w, h1)) <= visible_count(spec_layout(msgs, w, h2)),
    decreases msgs.len(),
{
    if msgs.len() == 0 {
        return ;
    }
    let reg1 = spec_region(msgs, w, h1);
    let reg2 = spec_region(msgs, w, h2);
    let rem1 = spec_next_remaining(reg1.y);
    let rem2 = spec_next_remaining(reg2.y);
    let tail = msgs.drop_last();
    assert(reg1.height > 0 ==> reg2.height > 0);
    assert(rem1 <= rem2);
    if rem1 == 0 {
        assert(spec_layout(msgs, w, h1) == seq![reg1]);
        assert(seq![reg1] =~= seq![reg1] + Seq::<RegionModel>::empty());
        lemma_visible_count_cons(reg1, Seq::empty());
        if rem2 == 0 {
            assert(spec_layout(msgs, w, h2) == seq![reg2]);
            assert(seq![reg2] =~= seq![reg2] + Seq::<RegionModel>::empty());
            lemma_visible_count_cons(reg2, Seq::empty());
        } else {
            lemma_visible_count_cons(reg2, spec_layout(tail, w, rem2));
        }
    } else {
        lemma_taller_viewport_keeps_visible(tail, w, rem1, rem2);
        lemma_visible_count_cons(reg1, spec_layout(tail, w, rem1));
        lemma_visible_count_cons(reg2, spec_layout(tail, w, rem2));
    }
}

/// The view of a list of emitted regions.
pub open spec fn regions_view(regions: Seq<Region>) -> Seq<RegionModel> {
    regions.map_values(|r: Region| r@)
}

impl Chat {
    /// The layout engine: projects the transcript onto a viewport of the
    /// given size. A pure function of the transcript and the viewport: the
    /// regions are exactly `spec_layout` of them, newest message first.
    pub fn layout(&self, total_width: u16, total_height: u16) -> (regions: Vec<Region>)
        ensures
            regions_view(regions@) == spec_layout(self@, total_width as nat, total_height as nat),
    {
        let messages: &Vec<Message> = self.messages();
        let ghost msgs: Seq<MessageModel> = self@;
        let mut regions: Vec<Region> = Vec::new();
        let mut remaining: usize = total_height as usize;
        let mut stopped: bool = false;
        let mut i: usize = messages.len();
        proof {
            assert(msgs.take(i as int) =~= msgs);
            assert(regions_view(regions@) + spec_layout(msgs, total_width as nat, remaining as nat)
                =~= spec_layout(msgs, total_width as nat, remaining as nat));
        }
        while i > 0 && !stopped
            invariant
                i <= messages@.len(),
                messages@.map_values(|m: Message| m@) == msgs,
                msgs == self@,
                spec_layout(msgs, total_width as nat, total_height as nat) == regions_view(
                    regions@,
                ) + (if stopped {
                    Seq::<RegionModel>::empty()
                } else {
                    spec_layout(msgs.take(i as int), total_width as nat, remaining as nat)
                }),
            decreases i,
        {
            i = i - 1;
            let ghost rem0 = remaining as nat;
            let ghost prefix = msgs.take((i + 1) as int);
            proof {
                assert(prefix.len() == i + 1);
                assert(prefix.last() == msgs[i as int]);
                assert(prefix.drop_last() =~= msgs.take(i as int));
                assert(msgs[i as int] == messages@.map_values(|m: Message| m@)[i as int]);
            }
            let msg = &messages[i];
            let width: u16 = msg.width(total_width);
            let full: usize = msg.height(width);
            let y: usize = remaining.saturating_sub(full);
            let crop: usize = full.saturating_sub(remaining);
            let region = Region {
                index: i,
                x: msg.left_pad() as usize,
                y: y,
                width: width as usize,
                height: full - crop,
                crop_lines: crop,
            };
            proof {
                assert(region@ == spec_region(prefix, total_width as nat, rem0));
            }
            let ghost old_regions = regions@;
            regions.push(region);
            proof {
                assert(regions_view(regions@) =~= regions_view(old_regions).push(region@));
            }
            remaining = y.saturating_sub(MESSAGE_Y_PADDING);
            proof {
                assert(remaining as nat == spec_next_remaining(region@.y));
                if remaining == 0 {
                    assert(spec_layout(prefix, total_width as nat, rem0) == seq![region@]);
                    assert(regions_view(old_regions).push(region@) =~= regions_view(old_regions)
                        + seq![region@]);
                } else {
                    assert(spec_layout(prefix, total_width as nat, rem0) == seq![region@]
                        + spec_layout(msgs.take(i as int), total_width as nat, remaining as nat));
                    assert(regions_view(old_regions).push(region@) + spec_layout(
                        msgs.take(i as int),
                        total_width as nat,
                        remaining as nat,
                    ) =~= regions_view(old_regions) + (seq![region@] + spec_layout(
                        msgs.take(i as int),
                        total_width as nat,
                        remaining as nat,
                    )));
                }
            }
            if remaining == 0 {
                stopped = true;
            }
        }
        proof {
            if !stopped {
                assert(msgs.take(0) =~= Seq::<MessageModel>::empty());
            }
            assert(regions_view(regions@) + Seq::<RegionModel>::empty() =~= regions_view(regions@));
        }
        regions
    }
}

} // verus!
