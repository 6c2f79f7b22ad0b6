//! The desktop backend. Desktop windowing has no device safe areas and no
//! on-screen keyboard, so every operation is present for API uniformity but
//! semantically null: queries return the zero records, toggles do nothing,
//! and nothing can fail. The backend holds no state at all, so no call can
//! observe an effect of an earlier one, and concurrent calls share nothing.

use vstd::prelude::*;

use crate::error::Error;
use crate::models::KeyboardInfo;
use crate::models::SafeAreaInsets;

verus! {

/// Access to the edge-to-edge APIs on a desktop platform.
pub struct EdgeToEdge;

/// Builds the desktop backend. Construction cannot fail; the `Result` only
/// mirrors the shape the host expects of a backend initializer.
pub fn init() -> (r: Result<EdgeToEdge, Error>)
    ensures
        r is Ok,
{
    Ok(EdgeToEdge)
}

impl EdgeToEdge {
    /// Always the all-zero insets record, whatever was called before.
    pub fn get_safe_area_insets(&self) -> (r: Result<SafeAreaInsets, Error>)
        ensures
            r matches Ok(v) && v.is_zero() && v.wf(),
    {
        Ok(SafeAreaInsets::default())
    }

    /// Succeeds and does nothing: there is no edge-to-edge mode to enter.
    pub fn enable(&self) -> (r: Result<(), Error>)
        ensures
            r == Ok::<(), Error>(()),
    {
        Ok(())
    }

    /// Succeeds and does nothing: there is no edge-to-edge mode to leave.
    pub fn disable(&self) -> (r: Result<(), Error>)
        ensures
            r == Ok::<(), Error>(()),
    {
        Ok(())
    }

    /// Always the resting keyboard record: zero height, not visible.
    pub fn get_keyboard_info(&self) -> (r: Result<KeyboardInfo, Error>)
        ensures
            r matches Ok(v) && v.is_zero() && v.wf(),
    {
        Ok(KeyboardInfo::default())
    }

    /// Succeeds and does nothing: there is no keyboard to show.
    pub fn show_keyboard(&self) -> (r: Result<(), Error>)
        ensures
            r == Ok::<(), Error>(()),
    {
        Ok(())
    }

    /// Succeeds and does nothing: there is no keyboard to hide.
    pub fn hide_keyboard(&self) -> (r: Result<(), Error>)
        ensures
            r == Ok::<(), Error>(()),
    {
        Ok(())
    }
}

} // verus!
