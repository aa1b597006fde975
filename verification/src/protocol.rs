//! What the protocol bindings say about the codes of the color management protocol.
use vstd::prelude::*;
use wayland_client::WEnum;
use wayland_protocols::wp::color_management::v1::client::wp_color_manager_v1;

verus! {

/// The codes that the protocol gives to named primaries.
pub open spec fn is_primaries_code(code: u32) -> bool {
    1 <= code <= 10
}

/// The codes that the protocol gives to named transfer functions.
pub open spec fn is_transfer_function_code(code: u32) -> bool {
    1 <= code <= 14
}

/// Calls `WEnum::into_result` on the `WEnum` made of a code of `wp_color_manager_v1::Primaries`.
/// Claimed: it succeeds for the codes 1 (sRGB) to 10 (Adobe RGB), the ten entries of the
/// `primaries` enum in the protocol file, and for no other.
#[verifier::external_body]
pub(crate) fn primaries_code_known(code: u32) -> (known: bool)
    ensures
        known == is_primaries_code(code),
{
    WEnum::<wp_color_manager_v1::Primaries>::from(code).into_result().is_ok()
}

/// Calls `WEnum::into_result` on the `WEnum` made of a code of
/// `wp_color_manager_v1::TransferFunction`.
/// Claimed: it succeeds for the codes 1 (BT.1886) to 14 (compound power 2.4), the fourteen
/// entries of the `transfer_function` enum in the protocol file, and for no other.
#[verifier::external_body]
pub(crate) fn transfer_function_code_known(code: u32) -> (known: bool)
    ensures
        known == is_transfer_function_code(code),
{
    WEnum::<wp_color_manager_v1::TransferFunction>::from(code).into_result().is_ok()
}

/// Calls `u32::from` on `wp_color_manager_v1::RenderIntent::Perceptual`.
/// Claimed: its code is 0, as the protocol file has it.
#[verifier::external_body]
pub(crate) fn perceptual_code() -> (code: u32)
    ensures
        code == 0,
{
    u32::from(wp_color_manager_v1::RenderIntent::Perceptual)
}

} // verus!
