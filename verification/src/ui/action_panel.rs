//! What the action buttons asked for.
use vstd::prelude::*;

verus! {

/// The button clicked in a frame, if any.
pub enum ActionResult {
    /// No button was clicked.
    NoAction,
    /// The configure button.
    Fix,
    /// The restore-defaults button.
    Rollback,
    /// The refresh-adapters button.
    Refresh,
}

/// Whether the configure and restore buttons take clicks: only with
/// administrator rights and while no task runs.
pub fn actions_enabled(is_admin: bool, is_processing: bool) -> (b: bool)
    ensures
        b == (is_admin && !is_processing),
{
    is_admin && !is_processing
}

/// The configure button's caption: a busy note while a task runs.
pub fn fix_button_label(is_processing: bool) -> (s: &'static str)
    ensures
        s@ == if is_processing {
            "⏳ 处理中..."@
        } else {
            "🚀 一键配置分流"@
        },
{
    if is_processing {
        "⏳ 处理中..."
    } else {
        "🚀 一键配置分流"
    }
}

} // verus!
