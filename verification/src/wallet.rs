//! The wallet that rewards go to.

use vstd::prelude::*;
use vstd::string::*;
use vstd::utf8::encode_utf8;

use crate::text::starts_with;

verus! {

/// The least number of bytes in a wallet address.
pub const MIN_WALLET_LENGTH: usize = 20;

/// Why a text is no wallet address.
#[derive(Debug)]
pub enum WalletError {
    /// It does not start with `yjay`.
    WrongPrefix,
    /// It has fewer than [`MIN_WALLET_LENGTH`] bytes.
    TooShort,
}

/// What is wrong with a wallet address, if anything is.
pub open spec fn wallet_fault(addr: Seq<char>) -> Option<WalletError> {
    if !"yjay"@.is_prefix_of(addr) {
        Some(WalletError::WrongPrefix)
    } else if encode_utf8(addr).len() < MIN_WALLET_LENGTH {
        Some(WalletError::TooShort)
    } else {
        None
    }
}

/// Accepts a wallet address, or says why it is none.
pub fn validate_wallet(addr: &str) -> (r: Result<(), WalletError>)
    ensures
        match r {
            Ok(_) => wallet_fault(addr@) is None,
            Err(fault) => wallet_fault(addr@) == Some(fault),
        },
{
    if !starts_with(addr, "yjay") {
        return Err(WalletError::WrongPrefix);
    }
    if addr.as_bytes().len() < MIN_WALLET_LENGTH {
        return Err(WalletError::TooShort);
    }
    Ok(())
}

impl WalletError {
    /// What is said of an address with this fault.
    pub open spec fn wording(self, addr: Seq<char>) -> Seq<char> {
        match self {
            WalletError::WrongPrefix =>
                "wallet must be a Jay Network bech32 address starting with `yjay` (got: "@ + addr
                + ")"@,
            WalletError::TooShort => "wallet address looks too short: "@ + addr,
        }
    }

    /// Words the fault for the person who gave the address.
    pub fn message(&self, addr: &str) -> (text: String)
        ensures
            text@ == self.wording(addr@),
    {
        match self {
            WalletError::WrongPrefix => {
                let mut text =
                    "wallet must be a Jay Network bech32 address starting with `yjay` (got: ".to_owned();
                text.append(addr);
                text.append(")");
                text
            },
            WalletError::TooShort => {
                let mut text = "wallet address looks too short: ".to_owned();
                text.append(addr);
                text
            },
        }
    }
}

/// A wallet address is accepted just where it starts with `yjay` and has at least 20 bytes. It is
/// refused for its length only where it starts so and is shorter, and for its start otherwise.
pub proof fn law_wallet_is_accepted(addr: Seq<char>)
    ensures
        wallet_fault(addr) is None <==> "yjay"@.is_prefix_of(addr) && encode_utf8(addr).len() >= 20,
        wallet_fault(addr) == Some(WalletError::TooShort) <==> "yjay"@.is_prefix_of(addr)
            && encode_utf8(addr).len() < 20,
        wallet_fault(addr) == Some(WalletError::WrongPrefix) <==> !"yjay"@.is_prefix_of(addr),
{
}

/// Whatever is put behind an accepted address, it stays accepted.
pub proof fn law_longer_wallet_is_accepted(addr: Seq<char>, more: Seq<char>)
    requires
        wallet_fault(addr) is None,
    ensures
        wallet_fault(addr + more) is None,
    decreases more.len(),
{
    if more.len() == 0 {
        assert(addr + more == addr);
    } else {
        let before = more.drop_last();
        law_longer_wallet_is_accepted(addr, before);
        let longer = addr + more;
        assert(longer.drop_last() == addr + before);
        lemma_one_more_character(addr + before, more.last());
        assert((addr + before).push(more.last()) == longer);
        assert("yjay"@.is_prefix_of(longer)) by {
            assert forall|i: int| 0 <= i < "yjay"@.len() implies "yjay"@[i] == longer[i] by {
                assert("yjay"@[i] == (addr + before)[i]);
            }
        }
    }
}

/// One more character takes at least as many bytes.
proof fn lemma_one_more_character(s: Seq<char>, c: char)
    ensures
        encode_utf8(s.push(c)).len() >= encode_utf8(s).len(),
    decreases s.len(),
{
    let longer = s.push(c);
    if s.len() > 0 {
        assert(longer.drop_first() == s.drop_first().push(c));
        assert(longer.first() == s.first());
        lemma_one_more_character(s.drop_first(), c);
    }
}

/// What is said of a refused address repeats all of it.
pub proof fn law_refused_wallet_is_named(addr: Seq<char>)
    ensures
        WalletError::WrongPrefix.wording(addr)
            == "wallet must be a Jay Network bech32 address starting with `yjay` (got: "@ + addr
            + ")"@,
        WalletError::TooShort.wording(addr) == "wallet address looks too short: "@ + addr,
{
}

} // verus!
