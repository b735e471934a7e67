//! The dynamically typed values that travel in XML-RPC calls and replies.

use vstd::prelude::*;
use crate::members::{
    is_place, lemma_member_at_place, lemma_position_is_place, lemma_with_member_ascends,
    member_from, names_ascend, position_from, with_member,
};
use crate::text::{
    lemma_name_precedes_irreflexive, lemma_name_precedes_transitive, name_precedes, order_names,
    NameOrder,
};

verus! {

/// The mathematical content of a [`WireValue`]: strings are character
/// sequences, arrays are sequences, and a struct is the sequence of its
/// members, each a name with its value, in the order in which it holds them.
pub enum Wire {
    String(Seq<char>),
    Int(i32),
    Array(Seq<Wire>),
    Struct(Seq<(Seq<char>, Wire)>),
}

impl Wire {
    /// The value of the first member named `name`; `None` if there is none, or
    /// if `self` is no struct.
    pub open spec fn member(self, name: Seq<char>) -> Option<Wire> {
        match self {
            Wire::Struct(members) => member_from(members, name, 0),
            _ => None,
        }
    }

    /// The integer held under `name`; `None` if `name` is missing or holds
    /// anything else.
    pub open spec fn int_member(self, name: Seq<char>) -> Option<i32> {
        match self.member(name) {
            Some(Wire::Int(i)) => Some(i),
            _ => None,
        }
    }

    /// The string held under `name`; `None` if `name` is missing or holds
    /// anything else.
    pub open spec fn string_member(self, name: Seq<char>) -> Option<Seq<char>> {
        match self.member(name) {
            Some(Wire::String(s)) => Some(s),
            _ => None,
        }
    }
}

/// A value as it crosses the transport boundary, in either direction.
#[derive(Debug, PartialEq)]
pub enum WireValue {
    /// A string.
    String(String),
    /// A 32-bit signed integer.
    Int(i32),
    /// An ordered sequence of values.
    Array(Vec<WireValue>),
    /// An ordered mapping from member names to values.
    Struct(Members),
}

/// The members of a struct: values under names, held in ascending order of
/// the names, each name once.
#[derive(Debug, PartialEq)]
pub struct Members {
    entries: Vec<(String, WireValue)>,
}

impl WireValue {
    /// What `self` holds, all the way down.
    pub open spec fn model(&self) -> Wire
        decreases self,
    {
        match self {
            WireValue::String(s) => Wire::String(s@),
            WireValue::Int(i) => Wire::Int(*i),
            WireValue::Array(items) => Wire::Array(
                Seq::new(
                    items.len() as nat,
                    |i: int|
                        if 0 <= i < items.len() {
                            items[i].model()
                        } else {
                            arbitrary()
                        },
                ),
            ),
            WireValue::Struct(members) => Wire::Struct(
                Seq::new(
                    members.held().len(),
                    |i: int|
                        if 0 <= i < members.held().len() {
                            (members.held()[i].0@, members.held()[i].1.model())
                        } else {
                            arbitrary()
                        },
                ),
            ),
        }
    }
}

impl View for WireValue {
    type V = Wire;

    open spec fn view(&self) -> Wire {
        self.model()
    }
}

impl View for Members {
    type V = Seq<(Seq<char>, Wire)>;

    open spec fn view(&self) -> Seq<(Seq<char>, Wire)> {
        Seq::new(self.held().len(), |i: int| (self.held()[i].0@, self.held()[i].1@))
    }
}

/// The contents of each of `items`, in order.
pub open spec fn wires(items: Seq<WireValue>) -> Seq<Wire> {
    Seq::new(items.len(), |i: int| items[i]@)
}

impl Members {
    /// The names and values as they are held.
    pub closed spec fn held(&self) -> Seq<(String, WireValue)> {
        self.entries@
    }

    #[verifier::type_invariant]
    spec fn names_in_order(self) -> bool {
        names_ascend(self@)
    }

    /// No members.
    pub fn new() -> (members: Members)
        ensures
            members@ == Seq::<(Seq<char>, Wire)>::empty(),
    {
        let members = Members { entries: Vec::new() };
        assert(members@ =~= Seq::empty());
        members
    }

    /// The number of members.
    pub fn len(&self) -> (count: usize)
        ensures
            count == self@.len(),
    {
        self.entries.len()
    }

    /// The members, in ascending order of their names.
    pub fn entries(&self) -> (entries: &Vec<(String, WireValue)>)
        ensures
            entries@ == self.held(),
            names_ascend(self@),
    {
        proof {
            use_type_invariant(self);
        }
        &self.entries
    }

    /// The value held under `name`.
    pub fn get(&self, name: &str) -> (found: Option<&WireValue>)
        ensures
            match found {
                Some(value) => member_from(self@, name@, 0) == Some(value@),
                None => member_from(self@, name@, 0) is None,
            },
    {
        let (at, found) = self.locate(name);
        proof {
            lemma_member_at_place(self@, name@, at as int);
        }
        if found {
            Some(&self.entries[at].1)
        } else {
            None
        }
    }

    /// Where `name` stands among the members, or would stand, and whether it
    /// is there.
    fn locate(&self, name: &str) -> (place: (usize, bool))
        ensures
            place.0 == position_from(self@, name@, 0),
            is_place(self@, name@, place.0 as int),
            place.1 == (place.0 < self@.len() && self@[place.0 as int].0 == name@),
    {
        proof {
            use_type_invariant(self);
        }
        let mut at: usize = 0;
        let mut found = false;
        loop
            invariant_except_break
                at <= self.entries.len(),
                !found,
                position_from(self@, name@, 0) == position_from(self@, name@, at as int),
            ensures
                at <= self.entries.len(),
                at == position_from(self@, name@, 0),
                found == (at < self@.len() && self@[at as int].0 == name@),
            decreases self.entries.len() - at,
        {
            if at == self.entries.len() {
                break ;
            }
            proof {
                lemma_name_precedes_irreflexive(name@);
            }
            match order_names(self.entries[at].0.as_str(), name) {
                NameOrder::Before => {
                    at += 1;
                },
                NameOrder::Same => {
                    found = true;
                    break ;
                },
                NameOrder::After => {
                    proof {
                        let held = self@[at as int].0;
                        if name_precedes(held, name@) {
                            lemma_name_precedes_transitive(name@, held, name@);
                        }
                    }
                    break ;
                },
            }
        }
        proof {
            lemma_position_is_place(self@, name@);
        }
        (at, found)
    }

    /// Puts `value` under `name` and hands back the value that `name` had, if
    /// it had one.
    pub fn insert(&mut self, name: String, value: WireValue) -> (previous: Option<WireValue>)
        ensures
            final(self)@ == with_member(old(self)@, name@, value@),
            match previous {
                Some(replaced) => member_from(old(self)@, name@, 0) == Some(replaced@),
                None => member_from(old(self)@, name@, 0) is None,
            },
    {
        let ghost before = self@;
        let (at, found) = self.locate(name.as_str());
        proof {
            use_type_invariant(&*self);
            lemma_member_at_place(before, name@, at as int);
        }
        let mut entries: Vec<(String, WireValue)> = Vec::new();
        std::mem::swap(&mut self.entries, &mut entries);
        let previous = if found {
            let held = entries.remove(at);
            Some(held.1)
        } else {
            None
        };
        entries.insert(at, (name, value));
        proof {
            let after = Seq::new(entries@.len(), |i: int| (entries@[i].0@, entries@[i].1@));
            assert(after =~= with_member(before, name@, value@));
            lemma_with_member_ascends(before, name@, value@);
        }
        std::mem::swap(&mut self.entries, &mut entries);
        assert(self@ =~= with_member(before, name@, value@));
        previous
    }
}

/// What members hold is smaller than the members: a recursion over a value
/// may descend into them.
pub proof fn lemma_held_decreases(members: Members, i: int)
    requires
        0 <= i < members.held().len(),
    ensures
        decreases_to!(members => members.held()[i].1),
{
}

impl Clone for Members {
    fn clone(&self) -> (copy: Self)
        ensures
            copy@ == self@,
        decreases self,
    {
        proof {
            use_type_invariant(self);
        }
        let mut copies: Vec<(String, WireValue)> = Vec::new();
        let mut i: usize = 0;
        while i < self.entries.len()
            invariant
                i <= self.entries.len(),
                copies.len() == i,
                forall|j: int|
                    0 <= j < i ==> copies[j].0@ == self.entries[j].0@ && copies[j].1@
                        == self.entries[j].1@,
            decreases self.entries.len() - i,
        {
            copies.push((self.entries[i].0.clone(), self.entries[i].1.clone()));
            i += 1;
        }
        proof {
            let copied = Seq::new(copies@.len(), |i: int| (copies@[i].0@, copies@[i].1@));
            assert(copied =~= self@);
        }
        Members { entries: copies }
    }
}

impl Clone for WireValue {
    fn clone(&self) -> (copy: Self)
        ensures
            copy@ == self@,
        decreases self,
    {
        match self {
            WireValue::String(s) => WireValue::String(s.clone()),
            WireValue::Int(i) => WireValue::Int(*i),
            WireValue::Array(items) => {
                let mut copies: Vec<WireValue> = Vec::new();
                let mut i: usize = 0;
                while i < items.len()
                    invariant
                        i <= items.len(),
                        copies.len() == i,
                        self is Array,
                        self->Array_0 == *items,
                        forall|j: int| 0 <= j < i ==> copies[j]@ == items[j]@,
                    decreases items.len() - i,
                {
                    copies.push(items[i].clone());
                    i += 1;
                }
                let copy = WireValue::Array(copies);
                assert(copy@->Array_0 =~= self@->Array_0);
                copy
            },
            WireValue::Struct(members) => {
                let copied = members.clone();
                assert(self@->Struct_0 =~= members@);
                let copy = WireValue::Struct(copied);
                assert(copy@->Struct_0 =~= members@);
                copy
            },
        }
    }
}

impl WireValue {
    /// The integer, if `self` is one.
    pub fn as_i32(&self) -> (number: Option<i32>)
        ensures
            match number {
                Some(i) => self@ == Wire::Int(i),
                None => !(self@ is Int),
            },
    {
        match self {
            WireValue::Int(i) => Some(*i),
            _ => None,
        }
    }

    /// The text, if `self` is a string.
    pub fn as_str(&self) -> (text: Option<&str>)
        ensures
            match text {
                Some(s) => self@ == Wire::String(s@),
                None => !(self@ is String),
            },
    {
        match self {
            WireValue::String(s) => Some(s.as_str()),
            _ => None,
        }
    }

    /// The elements, if `self` is an array.
    pub fn as_array(&self) -> (elements: Option<&Vec<WireValue>>)
        ensures
            match elements {
                Some(items) => self@ == Wire::Array(wires(items@)),
                None => !(self@ is Array),
            },
    {
        match self {
            WireValue::Array(items) => {
                assert(self@->Array_0 =~= wires(items@));
                Some(items)
            },
            _ => None,
        }
    }

    /// The members, if `self` is a struct.
    pub fn as_struct(&self) -> (members: Option<&Members>)
        ensures
            match members {
                Some(held) => self@ == Wire::Struct(held@),
                None => !(self@ is Struct),
            },
    {
        match self {
            WireValue::Struct(members) => {
                assert(self@->Struct_0 =~= members@);
                Some(members)
            },
            _ => None,
        }
    }

    /// The value held under `name`, if `self` is a struct that has one.
    pub fn get(&self, name: &str) -> (found: Option<&WireValue>)
        ensures
            match found {
                Some(value) => self@.member(name@) == Some(value@),
                None => self@.member(name@) is None,
            },
    {
        match self.as_struct() {
            Some(members) => members.get(name),
            None => None,
        }
    }

    /// The integer that `self`, a struct, holds under `name`.
    pub fn get_i32(&self, name: &str) -> (number: Option<i32>)
        ensures
            number == self@.int_member(name@),
    {
        match self.get(name) {
            Some(value) => value.as_i32(),
            None => None,
        }
    }

    /// The string that `self`, a struct, holds under `name`.
    pub fn get_str(&self, name: &str) -> (text: Option<&str>)
        ensures
            match text {
                Some(s) => self@.string_member(name@) == Some(s@),
                None => self@.string_member(name@) is None,
            },
    {
        match self.get(name) {
            Some(value) => value.as_str(),
            None => None,
        }
    }
}

} // verus!
