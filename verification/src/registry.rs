//! The subscription registry: which message id stands for which name and
//! layout.
//!
//! Entries come from the subscribe messages of one stream, in stream order.
//! Subscribing an id again replaces its entry.

use std::collections::HashMap;
use vstd::prelude::*;
use vstd::slice::slice_to_vec;
use crate::format::{FieldDecl, FieldDeclView, field_views};

verus! {

/// What a subscribe message establishes for a message id.
#[derive(Debug, PartialEq, Eq)]
pub struct SubscriptionEntry {
    pub msg_id: u16,
    pub multi_id: u8,
    pub name: Vec<u8>,
    /// The fields of a data message of this subscription, in order.
    pub layout: Vec<FieldDecl>,
}

/// A subscription entry, as plain values.
pub struct EntryView {
    pub msg_id: u16,
    pub multi_id: u8,
    pub name: Seq<u8>,
    pub layout: Seq<FieldDeclView>,
}

impl View for SubscriptionEntry {
    type V = EntryView;

    open spec fn view(&self) -> EntryView {
        EntryView {
            msg_id: self.msg_id,
            multi_id: self.multi_id,
            name: self.name@,
            layout: field_views(self.layout@),
        }
    }
}

/// A copy of a layout, field by field.
pub fn copy_layout(layout: &[FieldDecl]) -> (copy: Vec<FieldDecl>)
    ensures
        field_views(copy@) == field_views(layout@),
{
    let mut copy: Vec<FieldDecl> = Vec::with_capacity(layout.len());
    let mut i: usize = 0;
    while i < layout.len()
        invariant
            i <= layout@.len(),
            copy@.len() == i,
            forall|j: int| 0 <= j < i ==> (#[trigger] copy@[j])@ == layout@[j]@,
        decreases layout@.len() - i,
    {
        let field = &layout[i];
        copy.push(
            FieldDecl {
                name: slice_to_vec(field.name.as_slice()),
                kind: field.kind,
                array_len: field.array_len,
            },
        );
        i += 1;
    }
    copy
}

/// The entries of one stream, by message id.
pub struct SubscriptionRegistry {
    entries: HashMap<u16, SubscriptionEntry>,
}

impl View for SubscriptionRegistry {
    type V = Map<u16, EntryView>;

    closed spec fn view(&self) -> Map<u16, EntryView> {
        self.entries@.map_values(|entry: SubscriptionEntry| entry@)
    }
}

impl SubscriptionRegistry {
    /// A registry without entries.
    pub fn new() -> (registry: Self)
        ensures
            registry@ == Map::<u16, EntryView>::empty(),
    {
        let registry = SubscriptionRegistry { entries: HashMap::new() };
        registry
    }

    /// Records `entry` under its message id, in place of any entry that the
    /// id had before.
    pub fn subscribe(&mut self, entry: SubscriptionEntry)
        ensures
            final(self)@ == old(self)@.insert(entry.msg_id, entry@),
    {
        self.entries.insert(entry.msg_id, entry);
    }

    /// The entry of `msg_id`, if one was recorded.
    pub fn lookup(&self, msg_id: u16) -> (r: Option<&SubscriptionEntry>)
        ensures
            match r {
                Some(entry) => self@.contains_key(msg_id) && entry@ == self@[msg_id],
                None => !self@.contains_key(msg_id),
            },
    {
        self.entries.get(&msg_id)
    }
}

} // verus!
