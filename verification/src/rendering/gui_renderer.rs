//! The GUI plugin's decisions: the scale-factor toggle and the texture
//! buttons of the side panel.
pub mod graph_app;
pub mod perf_app;
pub mod stat_app;

use vstd::prelude::*;

verus! {

/// The scale-factor toggle after a frame: it flips when the toggle key was
/// just pressed or on the first frame (when it is unset), starting from
/// `false`; otherwise it stays.
pub open spec fn toggled(just_pressed: bool, toggle: Option<bool>) -> Option<bool> {
    if just_pressed || toggle is None {
        Some(
            !match toggle {
                Some(t) => t,
                None => true,
            },
        )
    } else {
        toggle
    }
}

/// Updates the scale-factor toggle; the result says whether the scale factor
/// is to be set again. While the toggle reads `true` the GUI is drawn at scale
/// 1, otherwise at the inverse of the window's scale factor.
pub fn update_scale_toggle(just_pressed: bool, toggle: &mut Option<bool>) -> (changed: bool)
    ensures
        *final(toggle) == toggled(just_pressed, *old(toggle)),
        changed == (just_pressed || *old(toggle) is None),
{
    if just_pressed || toggle.is_none() {
        let t = match *toggle {
            Some(t) => t,
            None => true,
        };
        *toggle = Some(!t);
        true
    } else {
        false
    }
}

/// Two presses of the toggle key bring the toggle back.
pub proof fn lemma_toggle_twice(t: bool)
    ensures
        toggled(true, toggled(true, Some(t))) == Some(t),
{
}

/// Name of the picture that the panel shows: the inverted icon while inverted.
pub open spec fn icon_name(inverted: bool) -> Seq<char> {
    if inverted {
        "icon_inverted.png"@
    } else {
        "icon.png"@
    }
}

/// What the side panel's buttons lead to: `Invert` flips `inverted`; `Load`
/// or `Invert` load the icon for the new state, whose name is returned;
/// `Remove` removes the picture, which the second result says.
pub fn texture_actions(load: bool, invert: bool, remove: bool, inverted: &mut bool) -> (r: (Option<String>, bool))
    ensures
        *final(inverted) == (*old(inverted) != invert),
        (load || invert) == r.0 is Some,
        r.0 matches Some(name) ==> name@ == icon_name(*final(inverted)),
        r.1 == remove,
{
    if invert {
        *inverted = !*inverted;
    }
    let mut texture: Option<String> = None;
    if load || invert {
        let name = if *inverted { "icon_inverted.png" } else { "icon.png" };
        texture = Some(String::from_str(name));
    }
    (texture, remove)
}

} // verus!
