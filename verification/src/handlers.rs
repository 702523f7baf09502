//! The three calls on the board: create it, submit a link, vote for a record.

use crate::address::{address_text, base58_text, Address};
use crate::error::MoonError;
use crate::state::{
    item_len, lemma_items_len_lower, new_item, Account, AccountView, BaseAccount,
    BaseAccountView, ItemStruct, ItemView,
};
use vstd::prelude::*;

verus! {

/// Bytes reserved for the board when it is created.
pub const BASE_ACCOUNT_SPACE: usize = 9000;

/// What a call that creates the board is given.
#[derive(Debug, Clone, PartialEq, Eq)]
pub struct Initialize {
    /// What the host holds at the board's address: nothing before the board
    /// is created, the board from then on.
    pub base_account: Option<Account>,
    /// Who pays for the bytes.
    pub user: Address,
}

/// What a call that submits or votes is given.
#[derive(Debug, Clone, PartialEq, Eq)]
pub struct GifApi {
    /// The board as the host loaded it.
    pub base_account: Account,
    /// Who makes the call.
    pub user: Address,
}

impl Initialize {
    /// What the host holds at the board's address.
    pub open spec fn slot(&self) -> Option<AccountView> {
        match self.base_account {
            Some(account) => Some(account@),
            None => None,
        }
    }
}

/// A board that was just created with this seed byte.
pub open spec fn created(bump: u8) -> AccountView {
    AccountView { space: BASE_ACCOUNT_SPACE as nat, data: BaseAccountView::empty(bump) }
}

/// What creating the board answers: it fails once the board exists.
pub open spec fn initialize_result(slot: Option<AccountView>) -> Result<(), MoonError> {
    if slot is Some {
        Err(MoonError::AlreadyExists)
    } else {
        Ok(())
    }
}

/// What the host holds after a call that creates the board with this seed byte.
pub open spec fn after_initialize(slot: Option<AccountView>, bump: u8) -> Option<AccountView> {
    if slot is Some {
        slot
    } else {
        Some(created(bump))
    }
}

impl AccountView {
    /// Whether the board with one more record still fits the bytes reserved
    /// for it.
    pub open spec fn fits(self, item: ItemView) -> bool {
        self.data.serialized_len() + item_len(item) <= self.space
    }

    /// What submitting this record answers.
    pub open spec fn add_result(self, item: ItemView) -> Result<(), MoonError> {
        if self.fits(item) {
            Ok(())
        } else {
            Err(MoonError::CapacityExceeded)
        }
    }

    /// The board after this record was submitted: it comes last, and the
    /// count is one more; a record that does not fit changes nothing.
    pub open spec fn after_add(self, item: ItemView) -> AccountView {
        if self.fits(item) {
            AccountView { space: self.space, data: self.data.appended(item) }
        } else {
            self
        }
    }

    /// What a vote for this identifier answers.
    pub open spec fn upvote_result(self, id: Seq<char>) -> Result<(), MoonError> {
        if self.data.has_id(id) {
            Ok(())
        } else {
            Err(MoonError::NotFound)
        }
    }

    /// The board after a vote for this identifier: the first record that has
    /// it has one more vote; where none has it, nothing changes.
    pub open spec fn after_upvote(self, id: Seq<char>) -> AccountView {
        if self.data.has_id(id) {
            AccountView { space: self.space, data: self.data.upvoted(self.data.first_with_id(id)) }
        } else {
            self
        }
    }
}

/// Creates the board, empty, with `base_account_bump` as its seed byte and
/// [`BASE_ACCOUNT_SPACE`] bytes reserved. Fails where the board exists.
pub fn initialize(ctx: &mut Initialize, base_account_bump: u8) -> (r: Result<(), MoonError>)
    ensures
        r == initialize_result(old(ctx).slot()),
        final(ctx).slot() == after_initialize(old(ctx).slot(), base_account_bump),
        final(ctx).user == old(ctx).user,
{
    if ctx.base_account.is_some() {
        return Err(MoonError::AlreadyExists);
    }
    let data = BaseAccount { total_gifs: 0, gif_list: Vec::new(), bump: base_account_bump };
    assert(data@.gif_list =~= Seq::empty());
    ctx.base_account = Some(Account { space: BASE_ACCOUNT_SPACE, data });
    Ok(())
}

/// Submits `gif_link` for the caller: a record without votes is put last, and
/// the count goes up by one. Fails, and changes nothing, where the board would
/// then outgrow its bytes.
pub fn add_gif(ctx: &mut GifApi, gif_link: String) -> (r: Result<(), MoonError>)
    requires
        old(ctx).base_account@.data.wf(),
    ensures
        ({
            let user = old(ctx).user@;
            let item = new_item(base58_text(user), user, gif_link@);
            &&& r == old(ctx).base_account@.add_result(item)
            &&& final(ctx).base_account@ == old(ctx).base_account@.after_add(item)
        }),
        final(ctx).base_account@.data.wf(),
        final(ctx).user == old(ctx).user,
{
    let user_address = address_text(&ctx.user);
    add_gif_as(ctx, user_address.as_str(), gif_link)
}

/// Submits `gif_link` for the caller, whose text is `user_address`.
pub fn add_gif_as(ctx: &mut GifApi, user_address: &str, gif_link: String) -> (r: Result<
    (),
    MoonError,
>)
    requires
        old(ctx).base_account@.data.wf(),
    ensures
        ({
            let item = new_item(user_address@, old(ctx).user@, gif_link@);
            &&& r == old(ctx).base_account@.add_result(item)
            &&& final(ctx).base_account@ == old(ctx).base_account@.after_add(item)
        }),
        final(ctx).base_account@.data.wf(),
        final(ctx).user == old(ctx).user,
{
    let item = ItemStruct::new(user_address, ctx.user, gif_link);
    let left = match ctx.base_account.data.space_left(ctx.base_account.space) {
        None => { return Err(MoonError::CapacityExceeded); },
        Some(n) => n,
    };
    if item.space_left(left).is_none() {
        return Err(MoonError::CapacityExceeded);
    }
    proof {
        lemma_items_len_lower(ctx.base_account@.data.gif_list);
    }
    let base_account = &mut ctx.base_account.data;
    base_account.gif_list.push(item);
    base_account.total_gifs += 1;
    assert(ctx.base_account@.data.gif_list =~= old(ctx).base_account@.data.gif_list.push(item@));
    Ok(())
}

/// Votes for the first record whose identifier is `gif_id`: it gets one more
/// vote. Fails, and changes nothing, where no record has the identifier.
pub fn upvote_gif(ctx: &mut GifApi, gif_id: String) -> (r: Result<(), MoonError>)
    requires
        old(ctx).base_account@.data.has_room_for_vote(gif_id@),
    ensures
        r == old(ctx).base_account@.upvote_result(gif_id@),
        final(ctx).base_account@ == old(ctx).base_account@.after_upvote(gif_id@),
        final(ctx).user == old(ctx).user,
{
    let index = match ctx.base_account.data.position(&gif_id) {
        None => { return Err(MoonError::NotFound); },
        Some(index) => index,
    };
    proof {
        old(ctx).base_account@.data.lemma_first_with_id(gif_id@, index as int);
    }
    let gif = &mut ctx.base_account.data.gif_list[index];
    gif.votes += 1;
    assert(ctx.base_account@.data.gif_list =~= old(ctx).base_account@.data.upvoted(
        index as int,
    ).gif_list);
    Ok(())
}

} // verus!
