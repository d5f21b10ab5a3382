//! State common to every display object.

use vstd::prelude::*;

verus! {

/// The depth a display object occupies in its parent.
pub type Depth = i16;

/// The name, depth and clip depth of a display object.
#[derive(Clone, Debug)]
pub struct DisplayObjectBase {
    depth: Depth,
    name: String,
    clip_depth: Depth,
}

/// The mathematical form of a [`DisplayObjectBase`].
pub ghost struct DisplayObjectBaseView {
    pub depth: Depth,
    pub name: Seq<char>,
    pub clip_depth: Depth,
}

impl View for DisplayObjectBase {
    type V = DisplayObjectBaseView;

    closed spec fn view(&self) -> DisplayObjectBaseView {
        DisplayObjectBaseView { depth: self.depth, name: self.name@, clip_depth: self.clip_depth }
    }
}

impl Default for DisplayObjectBase {
    fn default() -> (r: DisplayObjectBase)
        ensures
            r@ == (DisplayObjectBaseView { depth: 0, name: Seq::empty(), clip_depth: 0 }),
    {
        DisplayObjectBase { depth: 0, name: String::new(), clip_depth: 0 }
    }
}

impl DisplayObjectBase {
    /// The depth of the object in its parent.
    pub fn depth(&self) -> (r: Depth)
        ensures
            r == self@.depth,
    {
        self.depth
    }

    /// Set the depth of the object.
    pub fn set_depth(&mut self, depth: Depth)
        ensures
            final(self)@ == (DisplayObjectBaseView { depth, ..old(self)@ }),
    {
        self.depth = depth;
    }

    /// The instance name.
    pub fn name(&self) -> (r: &str)
        ensures
            r@ == self@.name,
    {
        self.name.as_str()
    }

    /// Set the instance name.
    pub fn set_name(&mut self, name: &str)
        ensures
            final(self)@ == (DisplayObjectBaseView { name: name@, ..old(self)@ }),
    {
        self.name = String::from_str(name);
    }

    /// The depth up to which this object masks its siblings; 0 if it is not
    /// a mask.
    pub fn clip_depth(&self) -> (r: Depth)
        ensures
            r == self@.clip_depth,
    {
        self.clip_depth
    }

    /// Set the clip depth.
    pub fn set_clip_depth(&mut self, depth: Depth)
        ensures
            final(self)@ == (DisplayObjectBaseView { clip_depth: depth, ..old(self)@ }),
    {
        self.clip_depth = depth;
    }
}

} // verus!
