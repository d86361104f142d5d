//! The gestures that a user can apply to the current fractal.
use vstd::prelude::*;
use crate::text::same_text;

verus! {

/// A recognised gesture.
#[derive(Clone, Copy, Debug, PartialEq, Eq, Structural)]
pub enum Gesture {
    /// Rotation about the z axis.
    Swipe,
    /// Uniform scaling.
    Pinch,
    /// Rotation about the x axis.
    Tilt,
    /// Translation along z.
    Smile,
}

/// The name by which a gesture arrives.
pub open spec fn gesture_name(g: Gesture) -> Seq<char> {
    match g {
        Gesture::Swipe => "swipe"@,
        Gesture::Pinch => "pinch"@,
        Gesture::Tilt => "tilt"@,
        Gesture::Smile => "smile"@,
    }
}

impl Gesture {
    /// The gesture called `name`, if any; other names are ignored.
    pub fn from_name(name: &str) -> (r: Option<Gesture>)
        ensures
            name@ == gesture_name(Gesture::Swipe) ==> r == Some(Gesture::Swipe),
            name@ == gesture_name(Gesture::Pinch) ==> r == Some(Gesture::Pinch),
            name@ == gesture_name(Gesture::Tilt) ==> r == Some(Gesture::Tilt),
            name@ == gesture_name(Gesture::Smile) ==> r == Some(Gesture::Smile),
            forall|g: Gesture| r == Some(g) ==> name@ == gesture_name(g),
    {
        proof {
            reveal_strlit("swipe");
            reveal_strlit("pinch");
            reveal_strlit("tilt");
            reveal_strlit("smile");
            assert("swipe"@[0] != "pinch"@[0]);
            assert("swipe"@[1] != "smile"@[1]);
            assert("pinch"@[0] != "smile"@[0]);
            assert("tilt"@.len() != "swipe"@.len());
            assert("tilt"@.len() != "pinch"@.len());
            assert("tilt"@.len() != "smile"@.len());
        }
        let r = if same_text(name, "swipe") {
            Some(Gesture::Swipe)
        } else if same_text(name, "pinch") {
            Some(Gesture::Pinch)
        } else if same_text(name, "tilt") {
            Some(Gesture::Tilt)
        } else if same_text(name, "smile") {
            Some(Gesture::Smile)
        } else {
            None
        };
        assert forall|g: Gesture| r == Some(g) <==> name@ == gesture_name(g) by {
            match g {
                Gesture::Swipe => {},
                Gesture::Pinch => {},
                Gesture::Tilt => {},
                Gesture::Smile => {},
            }
        }
        r
    }

    /// The name by which this gesture arrives.
    pub fn name(&self) -> (r: &'static str)
        ensures
            r@ == gesture_name(*self),
    {
        match self {
            Gesture::Swipe => "swipe",
            Gesture::Pinch => "pinch",
            Gesture::Tilt => "tilt",
            Gesture::Smile => "smile",
        }
    }
}

} // verus!
