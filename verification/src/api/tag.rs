//! Tag operations of the configuration API: looking tags up by name
//! and output, building the messages that change them, and cycling
//! layouts per tag.

use vstd::prelude::*;

use crate::api::msg::{Layout, Msg, Request, RequestResponse, TagId};
use crate::output::OutputName;
use crate::vec_index_mut;

verus! {

/// A handle on one output, by name.
#[derive(Debug, Clone, PartialEq, Eq)]
pub struct OutputHandle(pub OutputName);

/// Tag management.
#[derive(Debug, Clone, Copy, PartialEq, Eq, Structural)]
pub struct Tag;

/// A handle on one tag.
#[derive(Debug, Clone, PartialEq, Eq, Structural)]
pub struct TagHandle(pub TagId);

/// What the compositor reports about a tag.
#[derive(Debug, Clone, PartialEq, Eq)]
pub struct TagProperties {
    pub active: Option<bool>,
    pub name: Option<String>,
    pub output: Option<OutputHandle>,
}

/// Whether a tag entry is the one asked for: it sits on the target
/// output and carries the wanted name.
pub open spec fn tag_matches(
    entry: (TagId, TagProperties),
    name: Seq<char>,
    target: Option<Seq<char>>,
) -> bool {
    &&& (match (entry.1.output, target) {
        (Some(h), Some(t)) => h.0.0@ == t,
        _ => false,
    })
    &&& (match entry.1.name {
        Some(n) => n@ == name,
        None => false,
    })
}

/// The output a tag lookup filters by: the one asked for, or else the
/// currently focused one.
pub open spec fn lookup_target(
    output: Option<&OutputHandle>,
    focused: Option<&OutputHandle>,
) -> Option<Seq<char>> {
    match output {
        Some(h) => Some(h.0.0@),
        None => match focused {
            Some(f) => Some(f.0.0@),
            None => None,
        },
    }
}

impl Tag {
    /// Get a tag by its name and output from the fetched tag list. If
    /// no output is given, the currently focused output is used
    /// instead. If multiple tags match, this returns the first one.
    pub fn get(
        &self,
        name: &str,
        output: Option<&OutputHandle>,
        focused: Option<&OutputHandle>,
        tags: &Vec<(TagId, TagProperties)>,
    ) -> (r: Option<TagHandle>)
        ensures
            ({
                let target = lookup_target(output, focused);
                &&& (r is None ==> forall|i: int|
                    0 <= i < tags@.len() ==> !tag_matches(#[trigger] tags@[i], name@, target))
                &&& (r matches Some(h) ==> exists|i: int|
                    0 <= i < tags@.len() && tag_matches(#[trigger] tags@[i], name@, target) && (
                    forall|j: int| 0 <= j < i ==> !tag_matches(#[trigger] tags@[j], name@, target))
                        && h.0 == tags@[i].0)
            }),
    {
        let ghost tgt = lookup_target(output, focused);
        let target_str: Option<String> = match output {
            Some(h) => Some(h.0.0.clone()),
            None => match focused {
                Some(f) => Some(f.0.0.clone()),
                None => None,
            },
        };
        proof {
            match &target_str {
                Some(t) => {
                    assert(tgt == Some(t@));
                }
                None => {
                    assert(tgt is None);
                }
            }
        }
        let name_string = name.to_owned();
        let mut i: usize = 0;
        while i < tags.len()
            invariant
                i <= tags@.len(),
                name_string@ == name@,
                tgt == lookup_target(output, focused),
                (match target_str {
                    Some(t) => tgt == Some(t@),
                    None => tgt is None,
                }),
                forall|j: int| 0 <= j < i ==> !tag_matches(#[trigger] tags@[j], name@, tgt),
            decreases tags@.len() - i,
        {
            let entry = &tags[i];
            let output_ok = match (&entry.1.output, &target_str) {
                (Some(h), Some(t)) => h.0.0 == *t,
                _ => false,
            };
            let name_ok = match &entry.1.name {
                Some(n) => *n == name_string,
                None => false,
            };
            proof {
                assert((output_ok && name_ok) == tag_matches(tags@[i as int], name@, tgt));
            }
            if output_ok && name_ok {
                proof {
                    assert(tag_matches(#[trigger] tags@[i as int], name@, tgt));
                    assert(exists|w: int|
                        0 <= w < tags@.len() && tag_matches(#[trigger] tags@[w], name@, tgt) && (
                        forall|j: int|
                            0 <= j < w ==> !tag_matches(#[trigger] tags@[j], name@, tgt))
                            && TagHandle(tags@[i as int].0).0 == tags@[w].0);
                }
                return Some(TagHandle(entry.0));
            }
            i = i + 1;
        }
        None
    }

    /// The tag handles carried by a tag-list response.
    pub fn get_all(&self, response: &RequestResponse) -> (r: Vec<TagHandle>)
        requires
            response is Tags,
        ensures
            response matches RequestResponse::Tags { tag_ids } ==> r@.len() == tag_ids@.len() && (
            forall|i: int| 0 <= i < tag_ids@.len() ==> (#[trigger] r@[i]).0 == tag_ids@[i]),
    {
        let tag_ids = match response {
            RequestResponse::Tags { tag_ids } => tag_ids,
            RequestResponse::TagProps { .. } => {
                proof {
                    assert(false);
                }
                return Vec::new();
            }
        };
        let mut r: Vec<TagHandle> = Vec::new();
        let mut i: usize = 0;
        while i < tag_ids.len()
            invariant
                i <= tag_ids@.len(),
                r@.len() == i,
                forall|j: int| 0 <= j < i ==> (#[trigger] r@[j]).0 == tag_ids@[j],
            decreases tag_ids@.len() - i,
        {
            r.push(TagHandle(tag_ids[i]));
            i = i + 1;
        }
        r
    }

    /// The message that adds tags with the given names to an output.
    pub fn add(&self, output: &OutputHandle, names: &Vec<String>) -> (m: Msg)
        ensures
            m matches Msg::AddTags { output_name, tag_names } && output_name@ == output.0.0@
                && tag_names@ == names@,
    {
        let mut tag_names: Vec<String> = Vec::new();
        let mut i: usize = 0;
        while i < names.len()
            invariant
                i <= names@.len(),
                tag_names@ == names@.take(i as int),
            decreases names@.len() - i,
        {
            tag_names.push(names[i].clone());
            proof {
                assert(tag_names@ =~= names@.take(i + 1));
            }
            i = i + 1;
        }
        proof {
            assert(names@.take(names@.len() as int) =~= names@);
        }
        Msg::AddTags { output_name: output.0.0.clone(), tag_names }
    }

    /// A cycler over the given layouts, remembering one position per
    /// tag.
    pub fn layout_cycler(&self, layouts: &Vec<Layout>) -> (c: LayoutCycler)
        ensures
            c.wf(),
            c.layouts@ == layouts@,
            c.indices@.len() == 0,
    {
        let mut ls: Vec<Layout> = Vec::new();
        let mut i: usize = 0;
        while i < layouts.len()
            invariant
                i <= layouts@.len(),
                ls@ == layouts@.take(i as int),
            decreases layouts@.len() - i,
        {
            ls.push(layouts[i]);
            proof {
                assert(ls@ =~= layouts@.take(i + 1));
            }
            i = i + 1;
        }
        proof {
            assert(layouts@.take(layouts@.len() as int) =~= layouts@);
        }
        LayoutCycler { layouts: ls, indices: Vec::new() }
    }
}

/// A layout cycler: keeps track of each tag's position in the layout
/// list and builds the message that advances it.
pub struct LayoutCycler {
    pub layouts: Vec<Layout>,
    /// One remembered position per tag, in first-use order.
    pub indices: Vec<(TagId, usize)>,
}

impl LayoutCycler {
    /// Well-formed: every remembered position indexes the layout list.
    pub open spec fn wf(&self) -> bool {
        forall|j: int|
            0 <= j < self.indices@.len() ==> (#[trigger] self.indices@[j]).1 < self.layouts@.len()
    }
}

/// The position a cycler remembers for a tag: the first entry's value,
/// or 0 when the tag was never cycled.
pub open spec fn remembered_index(indices: Seq<(TagId, usize)>, tag: TagId, i: int) -> bool {
    &&& 0 <= i < indices.len()
    &&& indices[i].0 == tag
    &&& forall|j: int| 0 <= j < i ==> (#[trigger] indices[j]).0 != tag
}

impl LayoutCycler {
    /// Find the first remembered entry for a tag.
    fn find_entry(&self, tag: TagId) -> (r: Option<usize>)
        ensures
            r matches Some(i) ==> remembered_index(self.indices@, tag, i as int),
            r is None ==> forall|j: int|
                0 <= j < self.indices@.len() ==> (#[trigger] self.indices@[j]).0 != tag,
    {
        let mut i: usize = 0;
        while i < self.indices.len()
            invariant
                i <= self.indices@.len(),
                forall|j: int| 0 <= j < i ==> (#[trigger] self.indices@[j]).0 != tag,
            decreases self.indices@.len() - i,
        {
            if self.indices[i].0 == tag {
                return Some(i);
            }
            i = i + 1;
        }
        None
    }

    /// Advance the tag's layout one step forward, wrapping at the end,
    /// and build the message that sets it.
    pub fn next(&mut self, tag: TagId) -> (m: Msg)
        requires
            old(self).wf(),
            old(self).layouts@.len() > 0,
        ensures
            final(self).wf(),
            final(self).layouts == old(self).layouts,
            ({
                let len = old(self).layouts@.len();
                &&& ((forall|j: int|
                    0 <= j < old(self).indices@.len() ==> (#[trigger] old(self).indices@[j]).0
                        != tag) ==> ({
                    let new = if 1 >= len {
                        0int
                    } else {
                        1int
                    };
                    &&& m == (Msg::SetLayout {
                        tag_id: tag,
                        layout: old(self).layouts@[new],
                    })
                    &&& final(self).indices@ == old(self).indices@.push((tag, new as usize))
                }))
                &&& (forall|i: int|
                    remembered_index(old(self).indices@, tag, i) ==> ({
                        let cur = (#[trigger] old(self).indices@[i]).1;
                        let new = if cur + 1 >= len {
                            0int
                        } else {
                            cur + 1
                        };
                        &&& m == (Msg::SetLayout {
                            tag_id: tag,
                            layout: old(self).layouts@[new],
                        })
                        &&& final(self).indices@ == old(self).indices@.update(
                            i,
                            (tag, new as usize),
                        )
                    }))
            }),
    {
        let len = self.layouts.len();
        match self.find_entry(tag) {
            Some(i) => {
                let cur = self.indices[i].1;
                let new: usize = if cur >= len - 1 {
                    0
                } else {
                    cur + 1
                };
                let entry = vec_index_mut(&mut self.indices, i);
                *entry = (tag, new);
                proof {
                    assert forall|i2: int|
                        remembered_index(old(self).indices@, tag, i2) implies i2 == i as int by {
                        if i2 < i as int {
                            assert(old(self).indices@[i2].0 != tag);
                        } else if i2 > i as int {
                            assert(old(self).indices@[i as int].0 != tag);
                        }
                    }
                }
                Msg::SetLayout { tag_id: tag, layout: self.layouts[new] }
            }
            None => {
                let new: usize = if len <= 1 {
                    0
                } else {
                    1
                };
                self.indices.push((tag, new));
                Msg::SetLayout { tag_id: tag, layout: self.layouts[new] }
            }
        }
    }

    /// Step the tag's layout one step backward, wrapping at the start,
    /// and build the message that sets it.
    pub fn prev(&mut self, tag: TagId) -> (m: Msg)
        requires
            old(self).wf(),
            old(self).layouts@.len() > 0,
        ensures
            final(self).wf(),
            final(self).layouts == old(self).layouts,
            ({
                let len = old(self).layouts@.len();
                &&& ((forall|j: int|
                    0 <= j < old(self).indices@.len() ==> (#[trigger] old(self).indices@[j]).0
                        != tag) ==> ({
                    let new = len - 1;
                    &&& m == (Msg::SetLayout {
                        tag_id: tag,
                        layout: old(self).layouts@[new],
                    })
                    &&& final(self).indices@ == old(self).indices@.push((tag, new as usize))
                }))
                &&& (forall|i: int|
                    remembered_index(old(self).indices@, tag, i) ==> ({
                        let cur = (#[trigger] old(self).indices@[i]).1;
                        let new = if cur == 0 {
                            len - 1
                        } else {
                            cur - 1
                        };
                        &&& m == (Msg::SetLayout {
                            tag_id: tag,
                            layout: old(self).layouts@[new],
                        })
                        &&& final(self).indices@ == old(self).indices@.update(
                            i,
                            (tag, new as usize),
                        )
                    }))
            }),
    {
        let len = self.layouts.len();
        match self.find_entry(tag) {
            Some(i) => {
                let cur = self.indices[i].1;
                let new: usize = if cur == 0 {
                    len - 1
                } else {
                    cur - 1
                };
                let entry = vec_index_mut(&mut self.indices, i);
                *entry = (tag, new);
                proof {
                    assert forall|i2: int|
                        remembered_index(old(self).indices@, tag, i2) implies i2 == i as int by {
                        if i2 < i as int {
                            assert(old(self).indices@[i2].0 != tag);
                        } else if i2 > i as int {
                            assert(old(self).indices@[i as int].0 != tag);
                        }
                    }
                }
                Msg::SetLayout { tag_id: tag, layout: self.layouts[new] }
            }
            None => {
                let new: usize = len - 1;
                self.indices.push((tag, new));
                Msg::SetLayout { tag_id: tag, layout: self.layouts[new] }
            }
        }
    }
}

impl TagHandle {
    /// The tag's properties as carried by a tag-properties response.
    pub fn properties(&self, response: &RequestResponse) -> (p: TagProperties)
        requires
            response is TagProps,
        ensures
            response matches RequestResponse::TagProps { active, name, output_name } ==> {
                &&& p.active == active
                &&& (match (p.name, name) {
                    (Some(a), Some(b)) => a@ == b@,
                    (None, None) => true,
                    _ => false,
                })
                &&& (match (p.output, output_name) {
                    (Some(h), Some(b)) => h.0.0@ == b@,
                    (None, None) => true,
                    _ => false,
                })
            },
    {
        match response {
            RequestResponse::TagProps { active, name, output_name } => {
                let p_name = match name {
                    Some(n) => Some(n.clone()),
                    None => None,
                };
                let p_output = match output_name {
                    Some(o) => Some(OutputHandle(OutputName(o.clone()))),
                    None => None,
                };
                TagProperties { active: *active, name: p_name, output: p_output }
            }
            RequestResponse::Tags { .. } => {
                proof {
                    assert(false);
                }
                TagProperties { active: None, name: None, output: None }
            }
        }
    }

    /// The request that fetches this tag's properties.
    pub fn properties_request(&self) -> (r: Request)
        ensures
            r == (Request::GetTagProps { tag_id: self.0 }),
    {
        Request::GetTagProps { tag_id: self.0 }
    }

    /// The message that toggles this tag on its output.
    pub fn toggle(&self) -> (m: Msg)
        ensures
            m == (Msg::ToggleTag { tag_id: self.0 }),
    {
        Msg::ToggleTag { tag_id: self.0 }
    }

    /// The message that switches its output to exactly this tag.
    pub fn switch_to(&self) -> (m: Msg)
        ensures
            m == (Msg::SwitchToTag { tag_id: self.0 }),
    {
        Msg::SwitchToTag { tag_id: self.0 }
    }

    /// The message that sets this tag's layout.
    pub fn set_layout(&self, layout: Layout) -> (m: Msg)
        ensures
            m == (Msg::SetLayout { tag_id: self.0, layout }),
    {
        Msg::SetLayout { tag_id: self.0, layout }
    }
}

/// The entry to configuration: the modules a config client drives.
#[derive(Debug, Clone, Copy, PartialEq, Eq, Structural)]
pub struct Pinnacle {
    /// Tag management.
    pub tag: Tag,
}

impl Pinnacle {
    /// The message that quits the compositor.
    pub fn quit(&self) -> (m: Msg)
        ensures
            m == Msg::Quit,
    {
        Msg::Quit
    }
}

} // verus!
