//! The board's data: one submitted link, and the account that holds them all.

use crate::address::Address;
use vstd::prelude::*;
use vstd::utf8::encode_utf8;

verus! {

/// One submitted link.
#[derive(Debug, Clone, PartialEq, Eq)]
pub struct ItemStruct {
    /// `"0x"`, the submitter as text, `"_"`, the link. Two submissions of one
    /// link by one submitter share it.
    pub id: String,
    /// The link as it was submitted.
    pub gif_link: String,
    /// Who submitted it.
    pub user_address: Address,
    /// How often it was voted up.
    pub votes: u64,
}

/// What an [`ItemStruct`] stands for.
pub ghost struct ItemView {
    pub id: Seq<char>,
    pub gif_link: Seq<char>,
    pub user_address: Seq<u8>,
    pub votes: nat,
}

impl View for ItemStruct {
    type V = ItemView;

    open spec fn view(&self) -> ItemView {
        ItemView {
            id: self.id@,
            gif_link: self.gif_link@,
            user_address: self.user_address@,
            votes: self.votes as nat,
        }
    }
}

/// The board: a running count, the submissions in the order they came, and
/// the seed byte of the board's own address.
#[derive(Debug, Clone, PartialEq, Eq)]
pub struct BaseAccount {
    pub total_gifs: u64,
    pub gif_list: Vec<ItemStruct>,
    pub bump: u8,
}

/// What a [`BaseAccount`] stands for.
pub ghost struct BaseAccountView {
    pub total_gifs: nat,
    pub gif_list: Seq<ItemView>,
    pub bump: u8,
}

impl View for BaseAccount {
    type V = BaseAccountView;

    open spec fn view(&self) -> BaseAccountView {
        BaseAccountView {
            total_gifs: self.total_gifs as nat,
            gif_list: self.gif_list@.map_values(|item: ItemStruct| item@),
            bump: self.bump,
        }
    }
}

/// The board as the host keeps it: the bytes reserved for it, and what they
/// hold.
#[derive(Debug, Clone, PartialEq, Eq)]
pub struct Account {
    /// Bytes reserved when the board was created; they never grow.
    pub space: usize,
    pub data: BaseAccount,
}

/// What an [`Account`] stands for.
pub ghost struct AccountView {
    pub space: nat,
    pub data: BaseAccountView,
}

impl View for Account {
    type V = AccountView;

    open spec fn view(&self) -> AccountView {
        AccountView { space: self.space as nat, data: self.data@ }
    }
}

/// The identifier of a link submitted by the identity whose text is `user_text`.
pub open spec fn item_id(user_text: Seq<char>, gif_link: Seq<char>) -> Seq<char> {
    seq!['0', 'x'] + user_text + seq!['_'] + gif_link
}

/// The record that a submission starts as: no votes yet.
pub open spec fn new_item(user_text: Seq<char>, user: Seq<u8>, gif_link: Seq<char>) -> ItemView {
    ItemView { id: item_id(user_text, gif_link), gif_link, user_address: user, votes: 0 }
}

/// Bytes that every stored board takes, however many records it holds: the
/// account tag, the count, the length of the list, and the seed byte.
pub const FIXED_LEN: usize = 21;

/// Bytes that every stored record takes beside the text of its identifier and
/// its link: two string lengths, the submitter, and the votes.
pub const ITEM_FIXED_LEN: usize = 48;

/// Bytes that one record takes when stored.
pub open spec fn item_len(item: ItemView) -> nat {
    ITEM_FIXED_LEN as nat + encode_utf8(item.id).len() + encode_utf8(item.gif_link).len()
}

/// Bytes that these records take together when stored.
pub open spec fn items_len(items: Seq<ItemView>) -> nat
    decreases items.len(),
{
    if items.len() == 0 {
        0
    } else {
        items_len(items.drop_last()) + item_len(items.last())
    }
}

impl BaseAccountView {
    /// The count is the number of records.
    pub open spec fn wf(self) -> bool {
        self.total_gifs == self.gif_list.len()
    }

    /// A board on which nothing was submitted yet.
    pub open spec fn empty(bump: u8) -> BaseAccountView {
        BaseAccountView { total_gifs: 0, gif_list: Seq::empty(), bump }
    }

    /// The board after one more record.
    pub open spec fn appended(self, item: ItemView) -> BaseAccountView {
        BaseAccountView {
            total_gifs: self.total_gifs + 1,
            gif_list: self.gif_list.push(item),
            bump: self.bump,
        }
    }

    /// Whether some record has this identifier.
    pub open spec fn has_id(self, id: Seq<char>) -> bool {
        exists|i: int| 0 <= i < self.gif_list.len() && (#[trigger] self.gif_list[i]).id == id
    }

    /// Whether record `i` is the first with this identifier.
    pub open spec fn is_first_with_id(self, id: Seq<char>, i: int) -> bool {
        &&& 0 <= i < self.gif_list.len()
        &&& self.gif_list[i].id == id
        &&& forall|j: int| 0 <= j < i ==> (#[trigger] self.gif_list[j]).id != id
    }

    /// The place of the first record with this identifier, where some record
    /// has it.
    pub open spec fn first_with_id(self, id: Seq<char>) -> int {
        choose|i: int| self.is_first_with_id(id, i)
    }

    /// Only one record is the first with an identifier.
    pub proof fn lemma_first_with_id(self, id: Seq<char>, i: int)
        requires
            self.is_first_with_id(id, i),
        ensures
            self.has_id(id),
            self.first_with_id(id) == i,
    {
        let k = self.first_with_id(id);
        assert(self.is_first_with_id(id, k));
        if k < i {
            assert(self.gif_list[k].id != id);
        }
        if i < k {
            assert(self.gif_list[i].id != id);
        }
    }

    /// Whether a vote for this identifier keeps the votes within 64 bits: the
    /// first record that has it, if any, is not yet at the most they hold.
    pub open spec fn has_room_for_vote(self, id: Seq<char>) -> bool {
        forall|i: int| self.is_first_with_id(id, i) ==> self.gif_list[i].votes < u64::MAX
    }

    /// The board after one more vote for record `i`.
    pub open spec fn upvoted(self, i: int) -> BaseAccountView
        recommends
            0 <= i < self.gif_list.len(),
    {
        let item = self.gif_list[i];
        BaseAccountView {
            total_gifs: self.total_gifs,
            gif_list: self.gif_list.update(i, ItemView { votes: item.votes + 1, ..item }),
            bump: self.bump,
        }
    }

    /// Bytes that the board takes when stored.
    pub open spec fn serialized_len(self) -> nat {
        FIXED_LEN as nat + items_len(self.gif_list)
    }
}

/// The bytes of a prefix of the records are among the bytes of them all.
pub proof fn lemma_items_len_prefix(items: Seq<ItemView>, n: int)
    requires
        0 <= n <= items.len(),
    ensures
        items_len(items.take(n)) <= items_len(items),
    decreases items.len(),
{
    if n < items.len() {
        assert(items.drop_last().take(n) =~= items.take(n));
        lemma_items_len_prefix(items.drop_last(), n);
    } else {
        assert(items.take(n) =~= items);
    }
}

/// Each record takes its fixed bytes at least, so the bytes reserved bound
/// the number of records.
pub proof fn lemma_items_len_lower(items: Seq<ItemView>)
    ensures
        items_len(items) >= ITEM_FIXED_LEN * items.len(),
    decreases items.len(),
{
    if items.len() > 0 {
        lemma_items_len_lower(items.drop_last());
    }
}

/// The identifier of a link submitted by the identity whose text is
/// `user_address`.
pub fn make_id(user_address: &str, gif_link: &str) -> (id: String)
    ensures
        id@ == item_id(user_address@, gif_link@),
{
    let mut id = String::from_str("0x");
    id.append(user_address);
    id.append("_");
    id.append(gif_link);
    proof {
        reveal_strlit("0x");
        reveal_strlit("_");
        assert(id@ =~= item_id(user_address@, gif_link@));
    }
    id
}

impl ItemStruct {
    /// A record of `gif_link` as submitted by `user_address`, whose text is
    /// `user_text`; it has no votes yet.
    pub fn new(user_text: &str, user_address: Address, gif_link: String) -> (item: ItemStruct)
        ensures
            item@ == new_item(user_text@, user_address@, gif_link@),
    {
        let id = make_id(user_text, gif_link.as_str());
        ItemStruct { votes: 0, id, gif_link, user_address }
    }

    /// What is left of `space` bytes once the record is stored in them, or
    /// `None` where it does not fit.
    pub fn space_left(&self, space: usize) -> (left: Option<usize>)
        ensures
            match left {
                Some(n) => n + item_len(self@) == space,
                None => item_len(self@) > space,
            },
    {
        let id_len: usize = self.id.as_str().as_bytes().len();
        let link_len: usize = self.gif_link.as_str().as_bytes().len();
        match space.checked_sub(ITEM_FIXED_LEN) {
            None => None,
            Some(after_fixed) => match after_fixed.checked_sub(id_len) {
                None => None,
                Some(after_id) => after_id.checked_sub(link_len),
            },
        }
    }
}

impl BaseAccount {
    /// Whether the count is the number of records.
    pub fn is_well_formed(&self) -> (ok: bool)
        ensures
            ok == self@.wf(),
    {
        self.gif_list.len() as u64 == self.total_gifs
    }

    /// The place of the first record with this identifier, if there is one.
    pub fn position(&self, gif_id: &String) -> (found: Option<usize>)
        ensures
            match found {
                Some(i) => self@.is_first_with_id(gif_id@, i as int),
                None => !self@.has_id(gif_id@),
            },
    {
        let mut i: usize = 0;
        while i < self.gif_list.len()
            invariant
                i <= self.gif_list.len(),
                forall|j: int| 0 <= j < i ==> (#[trigger] self@.gif_list[j]).id != gif_id@,
            decreases self.gif_list.len() - i,
        {
            if self.gif_list[i].id == *gif_id {
                return Some(i);
            }
            i += 1;
        }
        None
    }

    /// Whether a vote for this identifier keeps the votes within 64 bits.
    pub fn has_room_for_vote(&self, gif_id: &String) -> (ok: bool)
        ensures
            ok == self@.has_room_for_vote(gif_id@),
    {
        match self.position(gif_id) {
            None => true,
            Some(i) => {
                proof {
                    self@.lemma_first_with_id(gif_id@, i as int);
                }
                self.gif_list[i].votes < u64::MAX
            },
        }
    }

    /// What is left of `space` bytes once the board is stored in them, or
    /// `None` where it does not fit.
    pub fn space_left(&self, space: usize) -> (left: Option<usize>)
        ensures
            match left {
                Some(n) => n + self@.serialized_len() == space,
                None => self@.serialized_len() > space,
            },
    {
        let mut left: usize = match space.checked_sub(FIXED_LEN) {
            None => { return None; },
            Some(n) => n,
        };
        let mut i: usize = 0;
        while i < self.gif_list.len()
            invariant
                i <= self.gif_list.len(),
                left + FIXED_LEN + items_len(self@.gif_list.take(i as int)) == space,
            decreases self.gif_list.len() - i,
        {
            proof {
                let next = self@.gif_list.take(i + 1);
                assert(next.drop_last() =~= self@.gif_list.take(i as int));
                assert(next.last() == self.gif_list[i as int]@);
                lemma_items_len_prefix(self@.gif_list, i + 1);
            }
            match self.gif_list[i].space_left(left) {
                None => { return None; },
                Some(n) => { left = n; },
            }
            i += 1;
        }
        assert(self@.gif_list.take(i as int) =~= self@.gif_list);
        Some(left)
    }
}

impl Default for BaseAccount {
    fn default() -> (account: BaseAccount)
        ensures
            account@ == BaseAccountView::empty(0),
    {
        let account = BaseAccount { total_gifs: 0, gif_list: Vec::new(), bump: 0 };
        assert(account@.gif_list =~= Seq::empty());
        account
    }
}

} // verus!
