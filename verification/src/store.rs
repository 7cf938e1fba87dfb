//! The run's configuration values for the backing store: the connection
//! handle the run hands to every worker, and the `<db>.<collection>`
//! namespace split. The store's wire protocol itself is an external
//! collaborator and stays outside the library.

use vstd::prelude::*;
use crate::pattern::{ByteClass, spec_find, find_from, copy_range};

verus! {

/// The configuration a store connection is opened with. Every worker shares
/// the same target; the wire client that consumes it lives outside the
/// library.
pub struct StoreClient {
    pub uri: String,
}

/// The store handle for a run: it carries the connection string unchanged.
pub fn get_client(uri: String) -> (c: StoreClient)
    ensures
        c.uri@ == uri@,
{
    StoreClient { uri }
}

/// The `<db>.<collection>` split of a namespace: the database is the text
/// before the first `.`, the collection the text between the first `.` and
/// the second one or the end. A namespace without a `.` names no collection.
pub open spec fn spec_split_namespace(s: Seq<u8>) -> Option<(Seq<u8>, Seq<u8>)> {
    match spec_find(s, 0, ByteClass::Exact(46)) {
        None => None,
        Some(d) => {
            let e = match spec_find(s, d + 1, ByteClass::Exact(46)) {
                None => s.len() as int,
                Some(e2) => e2,
            };
            Some((s.subrange(0, d), s.subrange(d + 1, e)))
        },
    }
}

pub fn split_namespace(ns: &[u8]) -> (r: Option<(Vec<u8>, Vec<u8>)>)
    ensures
        match r {
            Some((db, coll)) => spec_split_namespace(ns@) == Some((db@, coll@)),
            None => spec_split_namespace(ns@) is None,
        },
{
    let n = ns.len();
    match find_from(ns, 0, ByteClass::Exact(46)) {
        None => None,
        Some(d) => {
            let e = match find_from(ns, d + 1, ByteClass::Exact(46)) {
                None => ns.len(),
                Some(e2) => e2,
            };
            Some((copy_range(ns, 0, d), copy_range(ns, d + 1, e)))
        },
    }
}

} // verus!
