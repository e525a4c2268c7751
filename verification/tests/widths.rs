use anchor_lang::prelude::Pubkey;
use sized_data::{SizedData, DISCRIMINATOR_LEN};

type UserAccount = (Pubkey, u64);
type Header = (u64, [u8; 32]);
type Ledger = (Header, (u8, Pubkey));

#[test]
fn primitive_widths_are_fixed() {
    assert_eq!(<u64 as SizedData>::size(), 8);
    assert_eq!(<[u8; 32] as SizedData>::size(), 32);
    assert_eq!(<Pubkey as SizedData>::size(), 32);
    assert_eq!(<u8 as SizedData>::size(), 1);
}

#[test]
fn primitive_widths_do_not_change_between_calls() {
    for _ in 0..3 {
        assert_eq!(<u64 as SizedData>::size(), 8);
        assert_eq!(<[u8; 32] as SizedData>::size(), 32);
        assert_eq!(<Pubkey as SizedData>::size(), 32);
        assert_eq!(<u8 as SizedData>::size(), 1);
    }
}

#[test]
fn primitive_padded_widths_add_eight() {
    assert_eq!(<u64 as SizedData>::size_padded(), 16);
    assert_eq!(<[u8; 32] as SizedData>::size_padded(), 40);
    assert_eq!(<Pubkey as SizedData>::size_padded(), 40);
    assert_eq!(<u8 as SizedData>::size_padded(), 9);
}

#[test]
fn discriminator_is_eight_bytes() {
    assert_eq!(DISCRIMINATOR_LEN, 8);
}

#[test]
fn empty_record_has_no_width() {
    assert_eq!(<() as SizedData>::size(), 0);
    assert_eq!(<() as SizedData>::size_padded(), 8);
}

#[test]
fn record_of_integer_and_byte_array() {
    assert_eq!(<(u64, [u8; 32]) as SizedData>::size(), 40);
    assert_eq!(<(u64, [u8; 32]) as SizedData>::size_padded(), 48);
}

#[test]
fn user_account_of_key_and_counter() {
    assert_eq!(UserAccount::size(), 40);
    assert_eq!(UserAccount::size_padded(), 48);
}

#[test]
fn padded_width_of_a_record_adds_eight() {
    assert_eq!(Ledger::size_padded(), 8 + Ledger::size());
    assert_eq!(Header::size_padded(), 8 + Header::size());
}

#[test]
fn nested_record_counts_for_its_own_width() {
    assert_eq!(Header::size(), 40);
    assert_eq!(Ledger::size(), 40 + 1 + 32);
    assert_eq!(Ledger::size(), 73);
    assert_eq!(Ledger::size_padded(), 81);
}

#[test]
fn pair_order_does_not_change_the_width() {
    assert_eq!(<(u64, u8) as SizedData>::size(), 9);
    assert_eq!(<(u8, u64) as SizedData>::size(), 9);
    assert_eq!(
        <((u8, Pubkey), u64) as SizedData>::size(),
        <(u64, (Pubkey, u8)) as SizedData>::size()
    );
}

#[test]
fn one_more_part_adds_its_width() {
    let before = <(u64, u8) as SizedData>::size();
    let after = <((u64, u8), Pubkey) as SizedData>::size();
    assert_eq!(after, before + 32);
    assert_eq!(<((u64, u8), ()) as SizedData>::size(), before);
}
