//! The walk over the dialogs of the account, one page at a time.

use crate::client::requests::Request;
use crate::client::requests::RequestView;
use crate::client::types::Dialog;
use crate::client::types::DialogsKind;
use crate::client::types::DialogsPage;
use crate::client::types::InputPeer;
use crate::client::types::Peer;
use std::collections::HashSet;
use vstd::prelude::*;

verus! {

broadcast use vstd::std_specs::hash::group_hash_axioms;

/// How many dialogs the walk asks for at a time.
pub const DIALOGS_PER_PAGE: i32 = 100;

/// The walk over the dialogs: where the next page starts, whom it has seen
/// so far, and whether it has reached the end.
#[derive(Debug)]
pub struct Dialogs {
    offset_date: i32,
    offset_id: i32,
    offset_peer: InputPeer,
    seen: HashSet<i64>,
    done: bool,
    limit: i32,
}

/// `Dialogs` as a mathematical value.
pub struct DialogsView {
    pub offset_date: i32,
    pub offset_id: i32,
    pub offset_peer: InputPeer,
    /// The peers of the dialogs seen so far.
    pub seen: Set<Peer>,
    pub done: bool,
    pub limit: i32,
}

/// The number under which a peer is kept: users, chats and channels have
/// ranges of their own.
pub open spec fn peer_key(peer: Peer) -> i64 {
    match peer {
        Peer::User { user_id } => (user_id + 0x8000_0000) as i64,
        Peer::Chat { chat_id } => (chat_id + 0x1_8000_0000) as i64,
        Peer::Channel { channel_id } => (channel_id + 0x2_8000_0000) as i64,
    }
}

/// The peers of the dialogs.
pub open spec fn peers_of(dialogs: Seq<Dialog>) -> Seq<Peer> {
    Seq::new(dialogs.len(), |i: int| dialogs[i].peer)
}

/// The peers of the first `n` of the dialogs, as a set.
pub open spec fn page_peers(dialogs: Seq<Dialog>, n: int) -> Set<Peer> {
    Set::new(|peer: Peer| exists|i: int| 0 <= i < n && (#[trigger] dialogs[i]).peer == peer)
}

/// The numbers of the peers of the first `n` of the dialogs.
pub open spec fn page_keys(dialogs: Seq<Dialog>, n: int) -> Set<i64> {
    Set::new(|key: i64| exists|i: int| 0 <= i < n && peer_key((#[trigger] dialogs[i]).peer) == key)
}

/// The dialogs among the first `n` of `dialogs` that are new: those with a
/// peer that is not among `seen` and that no earlier one has, in their order.
pub open spec fn new_dialogs(dialogs: Seq<Dialog>, seen: Set<Peer>, n: int) -> Seq<Dialog>
    decreases n,
{
    if n <= 0 {
        Seq::empty()
    } else {
        let before = new_dialogs(dialogs, seen, n - 1);
        let peer = dialogs[n - 1].peer;
        if seen.contains(peer) || peers_of(before).contains(peer) {
            before
        } else {
            before.push(dialogs[n - 1])
        }
    }
}

/// Whether the page is the last: it is no slice of the list, or it holds
/// fewer dialogs than were asked for.
pub open spec fn is_last_page(page: DialogsPage, limit: i32) -> bool {
    page.kind != DialogsKind::Slice || page.dialogs@.len() < limit
}

/// The walk after a page: the next page starts after the last dialog of this
/// one, the peers of the page count as seen, and the walk is done with the
/// last page.
pub open spec fn after_page(walk: DialogsView, page: DialogsPage) -> DialogsView {
    let dialogs = page.dialogs@;
    DialogsView {
        offset_date: if dialogs.len() > 0 {
            dialogs.last().date
        } else {
            walk.offset_date
        },
        offset_id: if dialogs.len() > 0 {
            dialogs.last().top_message
        } else {
            walk.offset_id
        },
        offset_peer: if dialogs.len() > 0 {
            dialogs.last().input_peer
        } else {
            walk.offset_peer
        },
        seen: walk.seen.union(page_peers(dialogs, dialogs.len() as int)),
        done: walk.done || is_last_page(page, walk.limit),
        limit: walk.limit,
    }
}

/// The request for the next page of the walk; none once it is done.
pub open spec fn page_request(walk: DialogsView) -> Option<RequestView> {
    if walk.done {
        None
    } else {
        Some(
            RequestView::GetDialogs {
                offset_date: walk.offset_date,
                offset_id: walk.offset_id,
                offset_peer: walk.offset_peer,
                limit: walk.limit,
                hash: 0,
            },
        )
    }
}

/// Peers with the same number are the same peer.
pub proof fn lemma_peer_key(a: Peer, b: Peer)
    ensures
        peer_key(a) == peer_key(b) <==> a == b,
{
}

/// The new dialogs of a page are dialogs of the page.
pub proof fn lemma_new_dialogs_of_page(dialogs: Seq<Dialog>, seen: Set<Peer>, n: int, k: int)
    requires
        0 <= n <= dialogs.len(),
        0 <= k < new_dialogs(dialogs, seen, n).len(),
    ensures
        exists|i: int| 0 <= i < n && #[trigger] dialogs[i] == new_dialogs(dialogs, seen, n)[k],
    decreases n,
{
    if n > 0 {
        let before = new_dialogs(dialogs, seen, n - 1);
        if k < before.len() {
            lemma_new_dialogs_of_page(dialogs, seen, n - 1, k);
            let i = choose|i: int| 0 <= i < n - 1 && #[trigger] dialogs[i] == before[k];
            assert(0 <= i < n && dialogs[i] == new_dialogs(dialogs, seen, n)[k]);
        } else {
            assert(dialogs[n - 1] == new_dialogs(dialogs, seen, n)[k]);
        }
    }
}

/// No peer is shown twice: the new dialogs of a page have peers that differ
/// from each other and from all those seen before.
pub proof fn lemma_new_dialogs_distinct(dialogs: Seq<Dialog>, seen: Set<Peer>, n: int)
    requires
        0 <= n <= dialogs.len(),
    ensures
        peers_of(new_dialogs(dialogs, seen, n)).no_duplicates(),
        forall|i: int|
            0 <= i < new_dialogs(dialogs, seen, n).len() ==> !seen.contains(
                #[trigger] new_dialogs(dialogs, seen, n)[i].peer,
            ),
    decreases n,
{
    if n > 0 {
        lemma_new_dialogs_distinct(dialogs, seen, n - 1);
        let before = new_dialogs(dialogs, seen, n - 1);
        let after = new_dialogs(dialogs, seen, n);
        let peer = dialogs[n - 1].peer;
        if !(seen.contains(peer) || peers_of(before).contains(peer)) {
            assert forall|i: int, j: int|
                0 <= i < after.len() && 0 <= j < after.len() && i != j implies peers_of(after)[i]
                != peers_of(after)[j] by {
                if i < before.len() && j < before.len() {
                    assert(peers_of(before)[i] != peers_of(before)[j]);
                } else {
                    let k = if i < before.len() {
                        i
                    } else {
                        j
                    };
                    assert(peers_of(before)[k] == after[k].peer);
                    assert(peers_of(before).contains(after[k].peer));
                }
            }
            assert forall|i: int| 0 <= i < after.len() implies !seen.contains(
                #[trigger] after[i].peer,
            ) by {
                if i < before.len() {
                    assert(after[i] == before[i]);
                }
            }
        }
    }
}

/// Every dialog of a page is shown by the walk, then or before: its peer was
/// seen already, or is that of one of the new dialogs.
pub proof fn lemma_new_dialogs_cover(dialogs: Seq<Dialog>, seen: Set<Peer>, n: int, i: int)
    requires
        0 <= i < n <= dialogs.len(),
    ensures
        seen.contains(dialogs[i].peer) || peers_of(new_dialogs(dialogs, seen, n)).contains(
            dialogs[i].peer,
        ),
    decreases n,
{
    let before = new_dialogs(dialogs, seen, n - 1);
    let after = new_dialogs(dialogs, seen, n);
    let peer = dialogs[i].peer;
    if i < n - 1 {
        lemma_new_dialogs_cover(dialogs, seen, n - 1, i);
        if !seen.contains(peer) {
            let k = choose|k: int| 0 <= k < peers_of(before).len() && peers_of(before)[k] == peer;
            assert(peers_of(after)[k] == peer);
        }
    } else if !seen.contains(peer) {
        if peers_of(before).contains(peer) {
            let k = choose|k: int| 0 <= k < peers_of(before).len() && peers_of(before)[k] == peer;
            assert(peers_of(after)[k] == peer);
        } else {
            assert(peers_of(after)[before.len() as int] == peer);
        }
    }
}

/// A page of dialogs with peers that differ from each other and from all
/// those seen before is shown whole, in its order.
pub proof fn lemma_new_dialogs_all(dialogs: Seq<Dialog>, seen: Set<Peer>, n: int)
    requires
        0 <= n <= dialogs.len(),
        forall|i: int| 0 <= i < dialogs.len() ==> !seen.contains(#[trigger] dialogs[i].peer),
        forall|i: int, j: int|
            0 <= i < j < dialogs.len() ==> (#[trigger] dialogs[i]).peer != (
            #[trigger] dialogs[j]).peer,
    ensures
        new_dialogs(dialogs, seen, n) == dialogs.take(n),
    decreases n,
{
    if n > 0 {
        lemma_new_dialogs_all(dialogs, seen, n - 1);
        let before = new_dialogs(dialogs, seen, n - 1);
        let peer = dialogs[n - 1].peer;
        if peers_of(before).contains(peer) {
            let k = choose|k: int| 0 <= k < peers_of(before).len() && peers_of(before)[k] == peer;
            assert(before[k] == dialogs[k]);
            assert(dialogs[k].peer != dialogs[n - 1].peer);
        }
        assert(dialogs.take(n) =~= dialogs.take(n - 1).push(dialogs[n - 1]));
    } else {
        assert(dialogs.take(0) =~= Seq::<Dialog>::empty());
    }
}

/// The walk goes on exactly while the pages are full slices of the list:
/// after a page it asks for the next one, which starts after the last dialog
/// of this one, unless the walk was done or the page is the last. A peer is
/// seen after a page exactly if it was seen before or the page has it.
pub proof fn lemma_walk_goes_on(walk: DialogsView, page: DialogsPage, peer: Peer)
    ensures
        after_page(walk, page).done == (walk.done || page.kind != DialogsKind::Slice
            || page.dialogs@.len() < walk.limit),
        page_request(after_page(walk, page)) is None <==> after_page(walk, page).done,
        !after_page(walk, page).done && page.dialogs@.len() > 0 ==> page_request(
            after_page(walk, page),
        ) == Some(
            RequestView::GetDialogs {
                offset_date: page.dialogs@.last().date,
                offset_id: page.dialogs@.last().top_message,
                offset_peer: page.dialogs@.last().input_peer,
                limit: walk.limit,
                hash: 0,
            },
        ),
        after_page(walk, page).seen.contains(peer) <==> (walk.seen.contains(peer)
            || peers_of(page.dialogs@).contains(peer)),
{
    let dialogs = page.dialogs@;
    if peers_of(dialogs).contains(peer) {
        let k = choose|k: int| 0 <= k < peers_of(dialogs).len() && peers_of(dialogs)[k] == peer;
        assert(dialogs[k].peer == peer);
    }
    if page_peers(dialogs, dialogs.len() as int).contains(peer) {
        let i = choose|i: int| 0 <= i < dialogs.len() && (#[trigger] dialogs[i]).peer == peer;
        assert(peers_of(dialogs)[i] == peer);
    }
}

/// The peers whose numbers are among `keys`.
pub open spec fn peers_with(keys: Set<i64>) -> Set<Peer> {
    Set::new(|peer: Peer| keys.contains(peer_key(peer)))
}

impl View for Dialogs {
    type V = DialogsView;

    closed spec fn view(&self) -> DialogsView {
        DialogsView {
            offset_date: self.offset_date,
            offset_id: self.offset_id,
            offset_peer: self.offset_peer,
            seen: peers_with(self.seen@),
            done: self.done,
            limit: self.limit,
        }
    }
}

/// Computes the number under which a peer is kept.
fn key_of(peer: Peer) -> (key: i64)
    ensures
        key == peer_key(peer),
{
    match peer {
        Peer::User { user_id } => user_id as i64 + 0x8000_0000,
        Peer::Chat { chat_id } => chat_id as i64 + 0x1_8000_0000,
        Peer::Channel { channel_id } => channel_id as i64 + 0x2_8000_0000,
    }
}

impl Dialogs {
    /// A walk from the start of the list, `limit` dialogs at a time.
    pub fn new(limit: i32) -> (walk: Dialogs)
        ensures
            walk@ == (DialogsView {
                offset_date: 0,
                offset_id: 0,
                offset_peer: InputPeer::Empty,
                seen: Set::empty(),
                done: false,
                limit,
            }),
    {
        let walk = Dialogs {
            offset_date: 0,
            offset_id: 0,
            offset_peer: InputPeer::Empty,
            seen: HashSet::new(),
            done: false,
            limit,
        };
        assert(peers_with(walk.seen@) =~= Set::<Peer>::empty());
        walk
    }

    /// Whether the walk has reached the end of the list.
    pub fn is_done(&self) -> (done: bool)
        ensures
            done == self@.done,
    {
        self.done
    }

    /// The request for the next page; none once the walk is done.
    pub fn next_request(&self) -> (request: Option<Request>)
        ensures
            match request {
                Some(r) => page_request(self@) == Some(r@),
                None => page_request(self@) is None,
            },
    {
        if self.done {
            None
        } else {
            Some(
                Request::GetDialogs {
                    offset_date: self.offset_date,
                    offset_id: self.offset_id,
                    offset_peer: self.offset_peer,
                    limit: self.limit,
                    hash: 0,
                },
            )
        }
    }

    /// Takes a page of the list and gives its new dialogs, in the order of
    /// the server: those whose peer the walk has not seen and no earlier
    /// dialog of the page has.
    #[verifier::loop_isolation(false)]
    pub fn accept(&mut self, page: &DialogsPage) -> (shown: Vec<Dialog>)
        ensures
            final(self)@ == after_page(old(self)@, *page),
            shown@ == new_dialogs(page.dialogs@, old(self)@.seen, page.dialogs@.len() as int),
    {
        let ghost dialogs = page.dialogs@;
        let ghost keys = self.seen@;
        let ghost seen = peers_with(keys);
        let mut shown: Vec<Dialog> = Vec::new();
        let mut i: usize = 0;
        assert(self.seen@ =~= keys.union(page_keys(dialogs, 0)));
        while i < page.dialogs.len()
            invariant
                i <= dialogs.len(),
                shown@ == new_dialogs(dialogs, seen, i as int),
                self.seen@ == keys.union(page_keys(dialogs, i as int)),
                self.offset_date == old(self).offset_date,
                self.offset_id == old(self).offset_id,
                self.offset_peer == old(self).offset_peer,
                self.done == old(self).done,
                self.limit == old(self).limit,
            decreases dialogs.len() - i,
        {
            let dialog = page.dialogs[i];
            let key = key_of(dialog.peer);
            let ghost before = shown@;
            let ghost had = self.seen@;
            proof {
                if page_keys(dialogs, i as int).contains(key) {
                    let j = choose|j: int|
                        0 <= j < i && peer_key((#[trigger] dialogs[j]).peer) == key;
                    lemma_peer_key(dialogs[j].peer, dialog.peer);
                    lemma_new_dialogs_cover(dialogs, seen, i as int, j);
                }
                if peers_of(before).contains(dialog.peer) {
                    let k = choose|k: int|
                        0 <= k < peers_of(before).len() && peers_of(before)[k] == dialog.peer;
                    lemma_new_dialogs_of_page(dialogs, seen, i as int, k);
                    let j = choose|j: int| 0 <= j < i && #[trigger] dialogs[j] == before[k];
                    assert(peer_key(dialogs[j].peer) == key);
                }
                assert(had.contains(key) == (seen.contains(dialog.peer) || peers_of(
                    before,
                ).contains(dialog.peer)));
            }
            let fresh = self.seen.insert(key);
            if fresh {
                shown.push(dialog);
            }
            proof {
                assert forall|k: i64| page_keys(dialogs, i + 1).contains(k) <==> (page_keys(
                    dialogs,
                    i as int,
                ).contains(k) || k == key) by {
                    if page_keys(dialogs, i + 1).contains(k) {
                        let j = choose|j: int|
                            0 <= j < i + 1 && peer_key((#[trigger] dialogs[j]).peer) == k;
                        if j < i {
                            assert(page_keys(dialogs, i as int).contains(k));
                        }
                    }
                    if page_keys(dialogs, i as int).contains(k) {
                        let j = choose|j: int|
                            0 <= j < i && peer_key((#[trigger] dialogs[j]).peer) == k;
                        assert(0 <= j < i + 1 && peer_key(dialogs[j].peer) == k);
                    }
                    if k == key {
                        assert(peer_key(dialogs[i as int].peer) == k);
                    }
                }
                assert(self.seen@ =~= keys.union(page_keys(dialogs, i + 1)));
            }
            i = i + 1;
        }
        let count = page.dialogs.len();
        if count > 0 {
            let last = page.dialogs[count - 1];
            self.offset_date = last.date;
            self.offset_id = last.top_message;
            self.offset_peer = last.input_peer;
        }
        let short = self.limit > 0 && count < self.limit as usize;
        let slice = match page.kind {
            DialogsKind::Slice => true,
            _ => false,
        };
        if !slice || short {
            self.done = true;
        }
        proof {
            let n = dialogs.len() as int;
            assert forall|peer: Peer| peers_with(self.seen@).contains(peer) <==> seen.union(
                page_peers(dialogs, n),
            ).contains(peer) by {
                if page_keys(dialogs, n).contains(peer_key(peer)) {
                    let j = choose|j: int|
                        0 <= j < n && peer_key((#[trigger] dialogs[j]).peer) == peer_key(peer);
                    lemma_peer_key(dialogs[j].peer, peer);
                    assert(dialogs[j].peer == peer);
                }
                if page_peers(dialogs, n).contains(peer) {
                    let j = choose|j: int| 0 <= j < n && (#[trigger] dialogs[j]).peer == peer;
                    assert(peer_key(dialogs[j].peer) == peer_key(peer));
                }
            }
            assert(peers_with(self.seen@) =~= seen.union(page_peers(dialogs, n)));
        }
        shown
    }
}

} // verus!
