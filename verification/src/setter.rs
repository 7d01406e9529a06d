//! The one computed part of wallpaper application: the per-monitor
//! configuration line. Printing it and invoking the compositor are the
//! caller's business.

use vstd::prelude::*;
use vstd::string::StringExecFns;

verus! {

/// The sway-style configuration line announcing one fragment:
/// `output <name> bg <path> fill`.
pub open spec fn config_line_spec(monitor_name: Seq<char>, image_full_path: Seq<char>) -> Seq<
    char,
> {
    "output "@ + monitor_name + " bg "@ + image_full_path + " fill"@
}

/// Renders the configuration line for one monitor's fragment.
pub fn sway_config_line(monitor_name: &str, image_full_path: &str) -> (r: String)
    ensures
        r@ == config_line_spec(monitor_name@, image_full_path@),
{
    let mut r = "output ".to_owned();
    r.append(monitor_name);
    r.append(" bg ");
    r.append(image_full_path);
    r.append(" fill");
    proof {
        assert(r@ =~= config_line_spec(monitor_name@, image_full_path@));
    }
    r
}

} // verus!
