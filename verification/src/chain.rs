//! The block producer's chain state and the node's landing page.

use vstd::prelude::*;

use crate::text::{decimal, decimal_chars, push_char, push_str};

verus! {

/// The chain state as plain values.
pub struct ChainView {
    pub height: nat,
    pub last_hash: Seq<char>,
}

/// The hash the chain starts from.
pub open spec fn genesis_hash() -> Seq<char> {
    "genesis-pappap-2025-vn"@
}

/// The state once a new block has been started.
pub open spec fn started(s: ChainView) -> ChainView {
    ChainView { height: s.height + 1, last_hash: s.last_hash }
}

/// The state once the block just produced has hash `hash`.
pub open spec fn recorded(s: ChainView, hash: Seq<char>) -> ChainView {
    ChainView { height: s.height, last_hash: hash }
}

/// The height and previous hash the next block is built on.
pub open spec fn next_block(s: ChainView) -> (nat, Seq<char>) {
    (s.height + 1, s.last_hash)
}

/// Height and last block hash of the local chain.
pub struct ChainState {
    height: u64,
    last_hash: String,
}

impl View for ChainState {
    type V = ChainView;

    closed spec fn view(&self) -> ChainView {
        ChainView { height: self.height as nat, last_hash: self.last_hash@ }
    }
}

impl ChainState {
    /// The chain before its first block.
    pub fn genesis() -> (s: Self)
        ensures
            s@.height == 0,
            s@.last_hash == genesis_hash(),
    {
        ChainState { height: 0, last_hash: "genesis-pappap-2025-vn".to_owned() }
    }

    /// The number of blocks produced.
    pub fn height(&self) -> (h: u64)
        ensures
            h == self@.height,
    {
        self.height
    }

    /// The hash of the last block (the genesis hash before the first).
    pub fn last_hash(&self) -> (h: String)
        ensures
            h@ == self@.last_hash,
    {
        self.last_hash.clone()
    }

    /// Starts the next block: the height goes up by one, and the new height
    /// and the previous block's hash are returned.
    pub fn start_block(&mut self) -> (r: (u64, String))
        requires
            old(self)@.height < u64::MAX,
        ensures
            final(self)@ == started(old(self)@),
            (r.0 as nat, r.1@) == next_block(old(self)@),
    {
        self.height = self.height + 1;
        (self.height, self.last_hash.clone())
    }

    /// Records the hash of the block just produced.
    pub fn record_block(&mut self, hash: String)
        ensures
            final(self)@ == recorded(old(self)@, hash@),
    {
        self.last_hash = hash;
    }
}

/// Each block is built on the one before: after a block is started and its
/// hash recorded, the next block has the following height and that hash as
/// its previous hash.
pub proof fn blocks_are_linked(s: ChainView, hash: Seq<char>)
    ensures
        next_block(recorded(started(s), hash)) == (s.height + 2, hash),
        recorded(started(s), hash).height == s.height + 1,
{
}

/// The state after blocks with hashes `hashes` were produced in turn (each
/// one started, then its hash recorded).
pub open spec fn produced(s: ChainView, hashes: Seq<Seq<char>>) -> ChainView
    decreases hashes.len(),
{
    if hashes.len() == 0 {
        s
    } else {
        recorded(started(produced(s, hashes.drop_last())), hashes.last())
    }
}

/// The previous hash each of those blocks was built on, in order.
pub open spec fn previous_hashes(s: ChainView, hashes: Seq<Seq<char>>) -> Seq<Seq<char>>
    decreases hashes.len(),
{
    if hashes.len() == 0 {
        Seq::empty()
    } else {
        previous_hashes(s, hashes.drop_last()).push(next_block(produced(s, hashes.drop_last())).1)
    }
}

/// The heights those blocks were given, in order.
pub open spec fn block_heights(s: ChainView, hashes: Seq<Seq<char>>) -> Seq<nat>
    decreases hashes.len(),
{
    if hashes.len() == 0 {
        Seq::empty()
    } else {
        block_heights(s, hashes.drop_last()).push(next_block(produced(s, hashes.drop_last())).0)
    }
}

/// After k blocks the height has grown by k and the last hash is the last
/// block's; the j-th block gets the j-th height after the start, the first
/// block is built on the hash the chain had, and every later block on the
/// hash of the block before it.
pub proof fn chain_after_blocks(s: ChainView, hashes: Seq<Seq<char>>)
    ensures
        produced(s, hashes).height == s.height + hashes.len(),
        hashes.len() > 0 ==> produced(s, hashes).last_hash == hashes.last(),
        hashes.len() == 0 ==> produced(s, hashes).last_hash == s.last_hash,
        previous_hashes(s, hashes).len() == hashes.len(),
        block_heights(s, hashes).len() == hashes.len(),
        forall|j: int| 0 <= j < hashes.len() ==> #[trigger] block_heights(s, hashes)[j] == s.height + j + 1,
        hashes.len() > 0 ==> previous_hashes(s, hashes)[0] == s.last_hash,
        forall|j: int|
            0 <= j < hashes.len() - 1 ==> #[trigger] previous_hashes(s, hashes)[j + 1] == hashes[j],
    decreases hashes.len(),
{
    if hashes.len() > 0 {
        let init = hashes.drop_last();
        chain_after_blocks(s, init);
        assert forall|j: int| 0 <= j < hashes.len() - 1 implies #[trigger] previous_hashes(s, hashes)[j + 1]
            == hashes[j] by {
            if j + 1 < init.len() {
                assert(previous_hashes(s, init)[j + 1] == init[j]);
            } else {
                assert(j == init.len() - 1);
                assert(produced(s, init).last_hash == init.last());
            }
        }
        assert forall|j: int| 0 <= j < hashes.len() implies #[trigger] block_heights(s, hashes)[j] == s.height
            + j + 1 by {
            if j < init.len() {
                assert(block_heights(s, init)[j] == s.height + j + 1);
            }
        }
        if init.len() > 0 {
            assert(previous_hashes(s, init)[0] == s.last_hash);
        }
    }
}

/// The node's landing page for a chain of `height` blocks.
pub open spec fn landing_page(height: nat) -> Seq<char> {
    "<h1 style='text-align:center;margin-top:20%;font-family:Arial;color:#0066cc'>\n                                    PAPPAP AI CHAIN<br>GENESIS NODE VIETNAM<br><br>\n                                    Block Height: "@
        + decimal(height) + "<br>Spike Power: 0.999+</h1>"@
}

/// The node's landing page for a chain of `height` blocks.
pub fn landing_page_html(height: u64) -> (page: String)
    ensures
        page@ == landing_page(height as nat),
{
    let mut page = "<h1 style='text-align:center;margin-top:20%;font-family:Arial;color:#0066cc'>\n                                    PAPPAP AI CHAIN<br>GENESIS NODE VIETNAM<br><br>\n                                    Block Height: ".to_owned();
    let digits = decimal_chars(height);
    let ghost before = page@;
    for i in 0..digits.len()
        invariant
            page@ == before + digits@.take(i as int),
    {
        push_char(&mut page, digits[i]);
        assert(digits@.take(i + 1) == digits@.take(i as int).push(digits@[i as int]));
    }
    assert(digits@.take(digits@.len() as int) == digits@);
    push_str(&mut page, "<br>Spike Power: 0.999+</h1>");
    page
}

} // verus!
