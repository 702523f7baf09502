//! What holds of the board whatever is submitted and voted for.

use crate::error::MoonError;
use crate::handlers::{after_initialize, created, initialize_result};
use crate::state::{items_len, AccountView, BaseAccountView, ItemView};
use vstd::prelude::*;

verus! {

impl AccountView {
    /// The board after these records were submitted one after the other.
    pub open spec fn after_adds(self, items: Seq<ItemView>) -> AccountView
        decreases items.len(),
    {
        if items.len() == 0 {
            self
        } else {
            self.after_adds(items.drop_last()).after_add(items.last())
        }
    }

    /// Whether each of these records, submitted one after the other, fits.
    pub open spec fn all_fit(self, items: Seq<ItemView>) -> bool {
        forall|k: int|
            0 <= k < items.len() ==> #[trigger] self.after_adds(items.take(k)).fits(items[k])
    }
}

/// A board that was just created is empty, its count is zero, and it fits
/// the bytes reserved for it.
pub proof fn lemma_created_is_empty(bump: u8)
    ensures
        created(bump).data.wf(),
        created(bump).data.total_gifs == 0,
        created(bump).data.gif_list.len() == 0,
        created(bump).data.bump == bump,
        created(bump).data.serialized_len() <= created(bump).space,
{
}

/// The board is created once. Whatever the host held, after one call that
/// creates the board a second call fails with `AlreadyExists` and leaves what
/// the first call left.
pub proof fn lemma_initialize_once(slot: Option<AccountView>, first: u8, second: u8)
    ensures
        initialize_result(after_initialize(slot, first)) == Err::<(), MoonError>(
            MoonError::AlreadyExists,
        ),
        after_initialize(after_initialize(slot, first), second) == after_initialize(slot, first),
        slot is None ==> initialize_result(slot) is Ok && after_initialize(slot, first) == Some(
            created(first),
        ),
{
}

/// Submitting a record, whether it fits or not, keeps the count equal to the
/// number of records, keeps the seed byte and the bytes reserved, and a
/// record that fits leaves the board within its bytes.
pub proof fn lemma_add_keeps_count(account: AccountView, item: ItemView)
    requires
        account.data.wf(),
    ensures
        account.after_add(item).data.wf(),
        account.after_add(item).data.bump == account.data.bump,
        account.after_add(item).space == account.space,
        account.add_result(item) is Ok ==> account.after_add(item).data.serialized_len()
            <= account.space,
        account.add_result(item) is Ok ==> account.after_add(item).data.total_gifs
            == account.data.total_gifs + 1,
        account.add_result(item) is Err ==> account.after_add(item) == account,
{
    if account.fits(item) {
        assert(account.data.gif_list.push(item).drop_last() =~= account.data.gif_list);
    }
}

/// After each of any records submitted one after the other, the count is the
/// number of records.
pub proof fn lemma_adds_keep_count(account: AccountView, items: Seq<ItemView>, k: int)
    requires
        account.data.wf(),
        0 <= k <= items.len(),
    ensures
        account.after_adds(items.take(k)).data.wf(),
    decreases k,
{
    let done = items.take(k);
    if k > 0 {
        assert(done.drop_last() =~= items.take(k - 1));
        lemma_adds_keep_count(account, items, k - 1);
        lemma_add_keeps_count(account.after_adds(items.take(k - 1)), done.last());
    }
}

/// Records that all fit stand behind the earlier ones in the order in which
/// they were submitted, and the count grows by their number.
pub proof fn lemma_adds_keep_order(account: AccountView, items: Seq<ItemView>)
    requires
        account.all_fit(items),
    ensures
        account.after_adds(items).data.gif_list == account.data.gif_list + items,
        account.after_adds(items).data.total_gifs == account.data.total_gifs + items.len(),
    decreases items.len(),
{
    if items.len() > 0 {
        let before = items.drop_last();
        assert forall|k: int| 0 <= k < before.len() implies #[trigger] account.after_adds(
            before.take(k),
        ).fits(before[k]) by {
            assert(before.take(k) =~= items.take(k));
            assert(account.after_adds(items.take(k)).fits(items[k]));
        }
        lemma_adds_keep_order(account, before);
        let last = items.len() - 1;
        assert(items.take(last) =~= before);
        assert(account.after_adds(items.take(last)).fits(items[last]));
        assert(account.data.gif_list + items =~= (account.data.gif_list + before).push(
            items.last(),
        ));
    } else {
        assert(account.data.gif_list + items =~= account.data.gif_list);
    }
}

/// Two records submitted one after the other to a board on which both fit
/// stand last in that order; on an empty board they are all there is.
pub proof fn lemma_add_twice_in_order(account: AccountView, a: ItemView, b: ItemView)
    requires
        account.fits(a),
        account.after_add(a).fits(b),
    ensures
        account.after_add(a).after_add(b).data.gif_list == account.data.gif_list + seq![a, b],
        account.data.gif_list.len() == 0 ==> account.after_add(a).after_add(b).data.gif_list
            == seq![a, b],
        a != b ==> account.after_add(a).after_add(b).data.gif_list != account.data.gif_list
            + seq![b, a],
{
    let n = account.data.gif_list.len() as int;
    let both = account.after_add(a).after_add(b).data.gif_list;
    assert(both =~= account.data.gif_list + seq![a, b]);
    if n == 0 {
        assert(account.data.gif_list + seq![a, b] =~= seq![a, b]);
    }
    if a != b {
        assert(both[n] == a);
        assert((account.data.gif_list + seq![b, a])[n] == b);
    }
}

/// One submitter submitting one link twice gives two records with the same
/// identifier: nothing is refused as a repetition.
pub proof fn lemma_add_same_twice(account: AccountView, item: ItemView)
    requires
        account.fits(item),
        account.after_add(item).fits(item),
    ensures
        ({
            let list = account.after_add(item).after_add(item).data.gif_list;
            let n = account.data.gif_list.len() as int;
            &&& list.len() == n + 2
            &&& list[n] == item
            &&& list[n + 1] == item
        }),
{
}

/// Where some record has an identifier, one of them is the first.
pub proof fn lemma_has_first(board: BaseAccountView, id: Seq<char>)
    requires
        board.has_id(id),
    ensures
        board.is_first_with_id(id, board.first_with_id(id)),
{
    let some = choose|i: int| 0 <= i < board.gif_list.len() && (#[trigger] board.gif_list[i]).id
        == id;
    lemma_first_before(board, id, some);
}

/// Below or at a record with the identifier there is a first with it.
proof fn lemma_first_before(board: BaseAccountView, id: Seq<char>, i: int)
    requires
        0 <= i < board.gif_list.len(),
        board.gif_list[i].id == id,
    ensures
        exists|k: int| board.is_first_with_id(id, k),
    decreases i,
{
    if exists|j: int| 0 <= j < i && (#[trigger] board.gif_list[j]).id == id {
        let j = choose|j: int| 0 <= j < i && (#[trigger] board.gif_list[j]).id == id;
        lemma_first_before(board, id, j);
    } else {
        assert(board.is_first_with_id(id, i));
    }
}

/// A vote for an identifier that some record has succeeds, gives the first
/// such record exactly one more vote, and changes nothing else: not that
/// record's other fields, no other record, not the count, the seed byte or
/// the bytes reserved.
pub proof fn lemma_upvote_existing(account: AccountView, id: Seq<char>)
    requires
        account.data.has_id(id),
    ensures
        account.upvote_result(id) == Ok::<(), MoonError>(()),
        ({
            let i = account.data.first_with_id(id);
            let before = account.data.gif_list;
            let after = account.after_upvote(id).data.gif_list;
            &&& account.data.is_first_with_id(id, i)
            &&& after.len() == before.len()
            &&& after[i].votes == before[i].votes + 1
            &&& after[i].id == before[i].id
            &&& after[i].gif_link == before[i].gif_link
            &&& after[i].user_address == before[i].user_address
            &&& forall|j: int| 0 <= j < before.len() && j != i ==> after[j] == before[j]
        }),
        account.after_upvote(id).data.total_gifs == account.data.total_gifs,
        account.after_upvote(id).data.bump == account.data.bump,
        account.after_upvote(id).space == account.space,
        account.after_upvote(id).data.serialized_len() == account.data.serialized_len(),
{
    lemma_has_first(account.data, id);
    let i = account.data.first_with_id(id);
    let item = account.data.gif_list[i];
    lemma_items_len_update(account.data.gif_list, i, ItemView { votes: item.votes + 1, ..item });
}

/// A vote for an identifier that no record has fails with `NotFound` and
/// leaves the board as it was.
pub proof fn lemma_upvote_missing(account: AccountView, id: Seq<char>)
    requires
        !account.data.has_id(id),
    ensures
        account.upvote_result(id) == Err::<(), MoonError>(MoonError::NotFound),
        account.after_upvote(id) == account,
{
}

/// A record replaced by one with the same identifier and link takes the same
/// bytes.
proof fn lemma_items_len_update(items: Seq<ItemView>, i: int, item: ItemView)
    requires
        0 <= i < items.len(),
        item.id == items[i].id,
        item.gif_link == items[i].gif_link,
    ensures
        items_len(items.update(i, item)) == items_len(items),
    decreases items.len(),
{
    if i == items.len() - 1 {
        assert(items.update(i, item).drop_last() =~= items.drop_last());
    } else {
        assert(items.update(i, item).drop_last() =~= items.drop_last().update(i, item));
        lemma_items_len_update(items.drop_last(), i, item);
    }
}

} // verus!
