//! The PDF object graph that a document is assembled into: objects, object
//! numbers, and the trailer.

use vstd::prelude::*;
use vstd::string::{StrSliceExecFns, StringSliceAdditionalSpecFns};
use crate::error::Error;

verus! {

/// One PDF object. Every indirect object is written with generation 0.
#[derive(Debug)]
pub enum Obj {
    Null,
    Boolean(bool),
    Integer(i64),
    /// A real number, held in thousandths (`Real(1500)` is 1.5).
    Real(i64),
    Name(Vec<u8>),
    /// A literal string.
    Str(Vec<u8>),
    Array(Vec<Obj>),
    Dict(Vec<(Vec<u8>, Obj)>),
    /// A stream: its dictionary, its content, and whether a later pass may
    /// compress it.
    Stream(Vec<(Vec<u8>, Obj)>, Vec<u8>, bool),
    /// A reference to the indirect object with this number.
    Reference(u32),
}

/// The bytes of a key or a name given as text.
pub open spec fn key(s: &str) -> Seq<u8> {
    s.spec_bytes()
}

/// `Integer(v)`.
pub open spec fn is_int(o: Obj, v: int) -> bool {
    o matches Obj::Integer(i) && i == v
}

/// `Name(s)`.
pub open spec fn is_name(o: Obj, s: Seq<u8>) -> bool {
    o matches Obj::Name(n) && n@ == s
}

/// `Str(s)`.
pub open spec fn is_str(o: Obj, s: Seq<u8>) -> bool {
    o matches Obj::Str(n) && n@ == s
}

/// The entries of a dictionary or of a stream's dictionary.
pub open spec fn entries(o: Obj) -> Seq<(Vec<u8>, Obj)> {
    match o {
        Obj::Dict(d) => d@,
        Obj::Stream(d, _, _) => d@,
        _ => Seq::empty(),
    }
}

/// The items of an array.
pub open spec fn items(o: Obj) -> Seq<Obj> {
    match o {
        Obj::Array(a) => a@,
        _ => Seq::empty(),
    }
}

/// The content of a stream.
pub open spec fn content(o: Obj) -> Seq<u8> {
    match o {
        Obj::Stream(_, c, _) => c@,
        _ => Seq::empty(),
    }
}

/// The entry at position `i` of a dictionary has key `k`.
pub open spec fn entry_key(d: Seq<(Vec<u8>, Obj)>, i: int, k: Seq<u8>) -> bool {
    0 <= i < d.len() && d[i].0@ == k
}

/// The text `s` as bytes.
pub fn text(s: &str) -> (r: Vec<u8>)
    ensures
        r@ == key(s),
{
    s.as_bytes_vec()
}

/// A dictionary entry with a key given as text.
pub fn entry(k: &str, v: Obj) -> (r: (Vec<u8>, Obj))
    ensures
        r.0@ == key(k),
        r.1 == v,
{
    (text(k), v)
}

/// A name given as text.
pub fn name(s: &str) -> (r: Obj)
    ensures
        is_name(r, key(s)),
{
    Obj::Name(text(s))
}

/// A literal string given as text.
pub fn lit(s: &str) -> (r: Obj)
    ensures
        is_str(r, key(s)),
{
    Obj::Str(text(s))
}

/// Indirect objects numbered from 1, and the trailer dictionary.
#[derive(Debug)]
pub struct ObjectStore {
    /// The objects, in the order in which they were stored.
    pub objects: Vec<(u32, Obj)>,
    /// The highest object number handed out so far.
    pub max_id: u32,
    pub trailer: Vec<(Vec<u8>, Obj)>,
}

impl ObjectStore {
    /// Every stored object has a number that was handed out.
    pub open spec fn wf(&self) -> bool {
        forall|i: int| 0 <= i < self.objects@.len() ==> 1 <= #[trigger] self.objects@[i].0 <= self.max_id
    }

    pub fn new() -> (r: ObjectStore)
        ensures
            r.wf(),
            r.objects@.len() == 0,
            r.max_id == 0,
            r.trailer@.len() == 0,
    {
        ObjectStore { objects: Vec::new(), max_id: 0, trailer: Vec::new() }
    }

    /// Hands out the next object number, or fails when none is left.
    pub fn new_object_id(&mut self) -> (r: Result<u32, Error>)
        requires
            old(self).wf(),
        ensures
            final(self).wf(),
            final(self).objects == old(self).objects,
            final(self).trailer == old(self).trailer,
            old(self).max_id == u32::MAX ==> r == Err::<u32, Error>(Error::Allocation) && *final(self) == *old(self),
            old(self).max_id < u32::MAX ==> r == Ok::<u32, Error>((old(self).max_id + 1) as u32)
                && final(self).max_id == old(self).max_id + 1,
    {
        if self.max_id == u32::MAX {
            Err(Error::Allocation)
        } else {
            self.max_id = self.max_id + 1;
            Ok(self.max_id)
        }
    }

    /// Stores an object under a number handed out earlier.
    pub fn insert_object(&mut self, id: u32, o: Obj)
        requires
            old(self).wf(),
            1 <= id <= old(self).max_id,
        ensures
            final(self).wf(),
            final(self).objects@ == old(self).objects@.push((id, o)),
            final(self).max_id == old(self).max_id,
            final(self).trailer == old(self).trailer,
    {
        self.objects.push((id, o));
    }

    /// Stores an object under a new number and returns that number.
    pub fn add_object(&mut self, o: Obj) -> (r: Result<u32, Error>)
        requires
            old(self).wf(),
        ensures
            final(self).wf(),
            final(self).trailer == old(self).trailer,
            old(self).max_id == u32::MAX ==> r == Err::<u32, Error>(Error::Allocation) && *final(self) == *old(self),
            old(self).max_id < u32::MAX ==> r == Ok::<u32, Error>((old(self).max_id + 1) as u32)
                && final(self).max_id == old(self).max_id + 1
                && final(self).objects@ == old(self).objects@.push(((old(self).max_id + 1) as u32, o)),
    {
        let id = self.new_object_id()?;
        self.insert_object(id, o);
        Ok(id)
    }
}

} // verus!
