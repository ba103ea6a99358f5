//! Records exchanged with the Fiberplane API.
//!
//! The nested records of a notebook (its cells, its time range and the data
//! sources it selected) and of a proxy (its connection status and the summary
//! of each of its data sources) are other parts of the API's model; these
//! records are generic over them.
use std::collections::HashMap;
use vstd::prelude::*;

verus! {

/// A notebook as the API returns it.
pub struct Notebook<C, T, D> {
    pub id: String,
    pub revision: i32,
    pub title: String,
    pub cells: Vec<C>,
    pub created_at: String,
    pub data_sources: Option<HashMap<String, D>>,
    pub time_range: Box<T>,
    pub updated_at: String,
}

impl<C, T, D> Notebook<C, T, D> {
    /// A notebook with the given fields and no selected data sources.
    pub fn new(
        id: String,
        revision: i32,
        title: String,
        cells: Vec<C>,
        created_at: String,
        time_range: T,
        updated_at: String,
    ) -> (n: Notebook<C, T, D>)
        ensures
            n.id@ == id@,
            n.revision == revision,
            n.title@ == title@,
            n.cells@ == cells@,
            n.created_at@ == created_at@,
            n.data_sources is None,
            *n.time_range == time_range,
            n.updated_at@ == updated_at@,
    {
        Notebook {
            id,
            revision,
            title,
            cells,
            created_at,
            data_sources: None,
            time_range: Box::new(time_range),
            updated_at,
        }
    }
}

/// A proxy (the `fpd` daemon) registered in a workspace.
pub struct Proxy<S, D> {
    pub id: String,
    pub status: S,
    pub name: String,
    /// Only set when the proxy was just created.
    pub token: Option<String>,
    /// The data sources associated with this proxy.
    pub data_sources: Vec<D>,
}

impl<S, D> Proxy<S, D> {
    /// A proxy with the given fields and no token.
    pub fn new(id: String, status: S, name: String, data_sources: Vec<D>) -> (p: Proxy<S, D>)
        ensures
            p.id@ == id@,
            p.status == status,
            p.name@ == name@,
            p.token is None,
            p.data_sources@ == data_sources@,
    {
        Proxy { id, status, name, token: None, data_sources }
    }
}

/// The type of the values of a time series point.
#[derive(Clone, Copy, Debug, PartialEq, Eq, Hash, Structural)]
pub enum PointType {
    F64,
    String,
}

/// The name of a point type in the API.
pub open spec fn point_type_name(t: PointType) -> Seq<char> {
    match t {
        PointType::F64 => seq!['f', '6', '4'],
        PointType::String => seq!['s', 't', 'r', 'i', 'n', 'g'],
    }
}

impl PointType {
    /// The name of the point type in the API: `f64` or `string`.
    pub fn to_string(&self) -> (s: String)
        ensures
            s@ == point_type_name(*self),
    {
        match self {
            PointType::F64 => {
                let s = String::from_str("f64");
                proof {
                    reveal_strlit("f64");
                }
                s
            },
            PointType::String => {
                let s = String::from_str("string");
                proof {
                    reveal_strlit("string");
                }
                s
            },
        }
    }
}

} // verus!
