//! The media-group buffer: related uploads arriving as one album are
//! gathered under their group id until the caller's timer fires.

use vstd::prelude::*;

use crate::text::chars_string;
use crate::text::push_all;
use crate::text::str_chars;

verus! {

/// Presentation of one media kind in the status messages.
#[derive(Clone, Debug)]
pub struct MediaGroupConfig {
    pub emoji: String,
    pub item_label_plural: String,
}

/// One gathering album.
pub struct PendingGroup {
    pub group_id: String,
    pub items: Vec<String>,
    pub caption: Option<String>,
    pub user_id: i64,
    pub chat_id: i64,
}

/// The buffered albums, newest last.
pub struct MediaGroupBuffer {
    pub cfg: MediaGroupConfig,
    pub pending: Vec<PendingGroup>,
}

/// What one arrival did: opened a new group (the caller must check the
/// rate limit first, send the status message and start the timer), or
/// joined an existing one (the caller refreshes the timer).
#[derive(Clone, Copy, Debug, PartialEq, Eq, Structural)]
pub enum ArrivalOutcome {
    StartedGroup,
    AppendedToGroup,
}

impl MediaGroupBuffer {
    /// An empty buffer.
    pub fn new(cfg: MediaGroupConfig) -> (r: MediaGroupBuffer)
        ensures
            r.pending@.len() == 0,
    {
        MediaGroupBuffer { cfg, pending: Vec::new() }
    }

    /// The index of a group, if it is gathering.
    fn find_group(&self, group_id: &str) -> (r: Option<usize>)
        ensures
            match r {
                Some(i) => i < self.pending@.len() && self.pending@[i as int].group_id@
                    == group_id@,
                None => forall|k: int|
                    0 <= k < self.pending@.len() ==> (#[trigger] self.pending@[k]).group_id@
                        != group_id@,
            },
    {
        let gc = str_chars(group_id);
        let mut i: usize = 0;
        while i < self.pending.len()
            invariant
                i <= self.pending@.len(),
                gc@ == group_id@,
                forall|k: int|
                    0 <= k < i ==> (#[trigger] self.pending@[k]).group_id@ != group_id@,
            decreases self.pending@.len() - i,
        {
            let pc = str_chars(self.pending[i].group_id.as_str());
            if crate::text::chars_eq(&pc, &gc) {
                return Some(i);
            }
            i += 1;
        }
        None
    }

    /// Record one arrival: the first item of a group opens it; later
    /// items append, and the first non-empty caption is kept.
    pub fn add_item(
        &mut self,
        group_id: &str,
        item: String,
        caption: Option<String>,
        user_id: i64,
        chat_id: i64,
    ) -> (r: ArrivalOutcome)
        ensures
            r == ArrivalOutcome::StartedGroup <==> (forall|k: int|
                0 <= k < old(self).pending@.len() ==> (#[trigger] old(self).pending@[k]).group_id@ != group_id@),
            r == ArrivalOutcome::StartedGroup ==> {
                &&& final(self).pending@.len() == old(self).pending@.len() + 1
                &&& final(self).pending@.last().group_id@ == group_id@
                &&& final(self).pending@.last().items@.len() == 1
                &&& final(self).pending@.last().items@[0] == item
            },
            r == ArrivalOutcome::AppendedToGroup ==> exists|i: int|
                0 <= i < final(self).pending@.len() && (#[trigger] final(self).pending@[i]).group_id@ == group_id@ && final(self).pending@[i].items@ == old(self).pending@[i].items@.push(item),
    {
        match self.find_group(group_id) {
            Some(i) => {
                let ghost before = self.pending@;
                let entry = &mut self.pending[i];
                entry.items.push(item);
                if entry.caption.is_none() {
                    match caption {
                        Some(c) => {
                            let cc = str_chars(c.as_str());
                            let t = crate::text::trim_chars(&cc);
                            if t.len() > 0 {
                                entry.caption = Some(c);
                            }
                        },
                        None => {},
                    }
                }
                proof {
                    assert(self.pending@[i as int].group_id@ == group_id@);
                    assert(self.pending@[i as int].items@ == before[i as int].items@.push(item));
                }
                ArrivalOutcome::AppendedToGroup
            },
            None => {
                let gc = str_chars(group_id);
                self.pending.push(
                    PendingGroup {
                        group_id: chars_string(&gc),
                        items: vec_of_one(item),
                        caption,
                        user_id,
                        chat_id,
                    },
                );
                ArrivalOutcome::StartedGroup
            },
        }
    }

    /// Take a finished group out when its timer fires.
    pub fn take_group(&mut self, group_id: &str) -> (r: Option<PendingGroup>)
        ensures
            match r {
                Some(g) => g.group_id@ == group_id@ && final(self).pending@.len() == old(self).pending@.len() - 1,
                None => final(self).pending@ == old(self).pending@,
            },
    {
        match self.find_group(group_id) {
            Some(i) => Some(self.pending.remove(i)),
            None => None,
        }
    }

    /// The first status message: the configured emoji, `Receiving`, and
    /// the plural label.
    pub fn receiving_status(&self) -> (r: String)
        ensures
            r@ == self.cfg.emoji@ + " Receiving "@ + self.cfg.item_label_plural@ + "..."@,
    {
        let mut out: Vec<char> = str_chars(self.cfg.emoji.as_str());
        let mid = str_chars(" Receiving ");
        push_all(&mut out, &mid);
        let lbl = str_chars(self.cfg.item_label_plural.as_str());
        push_all(&mut out, &lbl);
        let dots = str_chars("...");
        push_all(&mut out, &dots);
        proof {
            assert(out@ =~= self.cfg.emoji@ + " Receiving "@ + self.cfg.item_label_plural@
                + "..."@);
        }
        chars_string(&out)
    }

    /// The processing status once the timer fired, with the item count.
    pub fn processing_status(&self, count: u64) -> (r: String)
        ensures
            r@ == self.cfg.emoji@ + " Processing "@ + crate::numbers::dec_digits(count as nat)
                + " "@ + self.cfg.item_label_plural@ + "..."@,
    {
        let mut out: Vec<char> = str_chars(self.cfg.emoji.as_str());
        let mid = str_chars(" Processing ");
        push_all(&mut out, &mid);
        let cd = crate::numbers::u64_to_dec(count);
        push_all(&mut out, &cd);
        out.push(' ');
        let lbl = str_chars(self.cfg.item_label_plural.as_str());
        push_all(&mut out, &lbl);
        let dots = str_chars("...");
        push_all(&mut out, &dots);
        proof {
            reveal_strlit(" ");
            assert(" "@ =~= seq![' ']);
            assert(out@ =~= self.cfg.emoji@ + " Processing "@ + crate::numbers::dec_digits(
                count as nat,
            ) + " "@ + self.cfg.item_label_plural@ + "..."@);
        }
        chars_string(&out)
    }
}

/// A vector of one element.
fn vec_of_one(item: String) -> (r: Vec<String>)
    ensures
        r@.len() == 1,
        r@[0] == item,
{
    let mut v: Vec<String> = Vec::new();
    v.push(item);
    v
}

} // verus!
