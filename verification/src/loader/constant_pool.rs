//! Lookups in the constant pool of a class file, by one-based index.
//!
//! No lookup fails: index 0, an index past the pool and a slot of another
//! kind than the one asked for all give `None`.

use crate::bytecode::format::pool_entry;
use crate::bytecode::parser::{
    ClassFile, ClassFileView, ConstantPoolEntry, ConstantPoolEntryView,
};
use vstd::prelude::*;

verus! {

impl ClassFileView {
    /// The slot with the one-based index `index`.
    pub open spec fn entry(self, index: u16) -> Option<ConstantPoolEntryView> {
        pool_entry(self.constant_pool, index)
    }

    /// The text in the slot at `index`, where that slot is a `Utf8`.
    pub open spec fn utf8(self, index: u16) -> Option<Seq<char>> {
        match self.entry(index) {
            Some(ConstantPoolEntryView::Utf8(text)) => Some(text),
            _ => None,
        }
    }

    /// The name of the class in the slot at `index`, where that slot is a
    /// `Class` whose name index leads to a `Utf8`.
    pub open spec fn class_name(self, index: u16) -> Option<Seq<char>> {
        match self.entry(index) {
            Some(ConstantPoolEntryView::Class { name_index }) => self.utf8(name_index),
            _ => None,
        }
    }

    /// The name and the descriptor in the slot at `index`, where that slot
    /// is a `NameAndType` whose two indices lead to a `Utf8` each.
    pub open spec fn name_and_type(self, index: u16) -> Option<(Seq<char>, Seq<char>)> {
        match self.entry(index) {
            Some(ConstantPoolEntryView::NameAndType { name_index, descriptor_index }) => {
                match (self.utf8(name_index), self.utf8(descriptor_index)) {
                    (Some(name), Some(descriptor)) => Some((name, descriptor)),
                    _ => None,
                }
            },
            _ => None,
        }
    }

    /// The name of the field that the `FieldRef` in the slot at `index`
    /// names.
    pub open spec fn field_name(self, index: u16) -> Option<Seq<char>> {
        match self.entry(index) {
            Some(ConstantPoolEntryView::FieldRef { class_index, name_and_type_index }) => {
                match self.entry(name_and_type_index) {
                    Some(ConstantPoolEntryView::NameAndType { name_index, descriptor_index }) => {
                        self.utf8(name_index)
                    },
                    _ => None,
                }
            },
            _ => None,
        }
    }

    /// The class, the name and the descriptor of the method that the
    /// `MethodRef` in the slot at `index` names.
    pub open spec fn method_ref(self, index: u16) -> Option<(Seq<char>, Seq<char>, Seq<char>)> {
        match self.entry(index) {
            Some(ConstantPoolEntryView::MethodRef { class_index, name_and_type_index }) => {
                match (self.class_name(class_index), self.name_and_type(name_and_type_index)) {
                    (Some(class_name), Some((name, descriptor))) => Some(
                        (class_name, name, descriptor),
                    ),
                    _ => None,
                }
            },
            _ => None,
        }
    }
}

impl ClassFile {
    /// The slot with the one-based index `index`, if the pool has one.
    pub fn entry(&self, index: u16) -> (r: Option<&ConstantPoolEntry>)
        ensures
            match self@.entry(index) {
                Some(entry) => r is Some && r->Some_0@ == entry,
                None => r is None,
            },
            r is Some <==> 1 <= index <= self.constant_pool.len(),
    {
        if index == 0 || index as usize > self.constant_pool.len() {
            return None;
        }
        assert(self.constant_pool.deep_view()[index - 1] == self.constant_pool[index - 1]@);
        Some(&self.constant_pool[(index - 1) as usize])
    }

    /// The text in the slot at `index`, if that slot is a `Utf8`.
    pub fn get_utf8(&self, index: u16) -> (r: Option<&str>)
        ensures
            match self@.utf8(index) {
                Some(text) => r is Some && r->Some_0@ == text,
                None => r is None,
            },
    {
        match self.entry(index) {
            Some(ConstantPoolEntry::Utf8(text)) => Some(text.as_str()),
            _ => None,
        }
    }

    /// The name of the class in the slot at `index`, if that slot is a
    /// `Class` whose name index leads to a `Utf8`.
    pub fn get_class_name(&self, index: u16) -> (r: Option<&str>)
        ensures
            match self@.class_name(index) {
                Some(name) => r is Some && r->Some_0@ == name,
                None => r is None,
            },
    {
        match self.entry(index) {
            Some(ConstantPoolEntry::Class { name_index }) => self.get_utf8(*name_index),
            _ => None,
        }
    }

    /// The name and the descriptor in the slot at `index`, if that slot is
    /// a `NameAndType` whose two indices lead to a `Utf8` each.
    pub fn get_name_and_type(&self, index: u16) -> (r: Option<(&str, &str)>)
        ensures
            match self@.name_and_type(index) {
                Some((name, descriptor)) => r is Some && r->Some_0.0@ == name && r->Some_0.1@
                    == descriptor,
                None => r is None,
            },
    {
        match self.entry(index) {
            Some(ConstantPoolEntry::NameAndType { name_index, descriptor_index }) => {
                match (self.get_utf8(*name_index), self.get_utf8(*descriptor_index)) {
                    (Some(name), Some(descriptor)) => Some((name, descriptor)),
                    _ => None,
                }
            },
            _ => None,
        }
    }

    /// The name of the field that the `FieldRef` in the slot at `index`
    /// names, if the slot and the slots it leads to are of the kinds they
    /// have to be.
    pub fn get_field_name(&self, index: u16) -> (r: Option<&str>)
        ensures
            match self@.field_name(index) {
                Some(name) => r is Some && r->Some_0@ == name,
                None => r is None,
            },
    {
        match self.entry(index) {
            Some(ConstantPoolEntry::FieldRef { class_index, name_and_type_index }) => {
                match self.entry(*name_and_type_index) {
                    Some(ConstantPoolEntry::NameAndType { name_index, descriptor_index }) => {
                        self.get_utf8(*name_index)
                    },
                    _ => None,
                }
            },
            _ => None,
        }
    }

    /// The class, the name and the descriptor of the method that the
    /// `MethodRef` in the slot at `index` names, if the slot and the slots
    /// it leads to are of the kinds they have to be.
    pub fn get_method_ref(&self, index: u16) -> (r: Option<(&str, &str, &str)>)
        ensures
            match self@.method_ref(index) {
                Some((class_name, name, descriptor)) => r is Some && r->Some_0.0@ == class_name
                    && r->Some_0.1@ == name && r->Some_0.2@ == descriptor,
                None => r is None,
            },
    {
        match self.entry(index) {
            Some(ConstantPoolEntry::MethodRef { class_index, name_and_type_index }) => {
                match (
                    self.get_class_name(*class_index),
                    self.get_name_and_type(*name_and_type_index),
                ) {
                    (Some(class_name), Some((name, descriptor))) => Some(
                        (class_name, name, descriptor),
                    ),
                    _ => None,
                }
            },
            _ => None,
        }
    }
}

} // verus!
