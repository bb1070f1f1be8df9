//! Space-object-factory catalog: hull, race and faction records, and
//! name-keyed lookup over a loaded catalog.
//!
//! The catalog itself arrives as XML-wrapped JSON through a resource
//! loader; decoding it is I/O-adjacent work the application performs.  The
//! records and the lookup rules live here.

use vstd::prelude::*;

verus! {

/// One race record of the catalog.
#[derive(Debug, Clone)]
pub struct Race {
    pub name: String,
}

/// One faction record of the catalog.
#[derive(Debug, Clone)]
pub struct Faction {
    pub name: String,
}

/// One hull record of the catalog: its name, description, and the resource
/// path of its geometry.
#[derive(Debug, Clone)]
pub struct Hull {
    pub name: String,
    pub description: String,
    pub geometry_res_file_path: String,
}

impl Hull {
    /// The resource path of this hull's geometry.
    pub fn geometry_path(&self) -> (r: &str)
        ensures
            r@ == self.geometry_res_file_path@,
    {
        self.geometry_res_file_path.as_str()
    }
}

/// The decoded catalog: name-keyed race, faction and hull tables.
#[derive(Debug, Clone)]
pub struct SofData {
    pub race: Vec<(String, Race)>,
    pub faction: Vec<(String, Faction)>,
    pub hull: Vec<(String, Hull)>,
}

/// Index of the first pair in `pairs` whose key reads `name`.
pub open spec fn spec_key_index<T>(pairs: Seq<(String, T)>, name: Seq<char>, from: int) -> Option<
    int,
>
    decreases pairs.len() - from,
{
    if from < 0 || from >= pairs.len() {
        None
    } else if pairs[from].0@ == name {
        Some(from)
    } else {
        spec_key_index(pairs, name, from + 1)
    }
}

/// The catalog manager: holds the decoded catalog once the application has
/// loaded it.
pub struct Manager {
    pub data: Option<SofData>,
}

impl Manager {
    /// A manager with no catalog loaded yet.
    pub fn new() -> (r: Manager)
        ensures
            r.data is None,
    {
        Manager { data: None }
    }

    /// Installs a decoded catalog.
    pub fn install(&mut self, data: SofData)
        ensures
            final(self).data == Some(data),
    {
        self.data = Some(data);
    }

    /// The names of every hull in the catalog, in table order; nothing
    /// until a catalog is installed.
    pub fn hulls(&self) -> (r: Option<Vec<String>>)
        ensures
            self.data is None ==> r is None,
            self.data matches Some(d) ==> r matches Some(v) && v@.len() == d.hull@.len() && (
            forall|i: int| 0 <= i < d.hull@.len() ==> v@[i]@ == (#[trigger] d.hull@[i]).0@),
    {
        match &self.data {
            None => None,
            Some(d) => {
                let n = d.hull.len();
                let mut out: Vec<String> = Vec::new();
                let mut i: usize = 0;
                while i < n
                    invariant
                        i <= n,
                        n == d.hull@.len(),
                        out@.len() == i,
                        forall|k: int| 0 <= k < i ==> out@[k]@ == (#[trigger] d.hull@[k]).0@,
                    decreases n - i,
                {
                    out.push(d.hull[i].0.clone());
                    i = i + 1;
                }
                Some(out)
            },
        }
    }

    /// The first hull record keyed by `name`; nothing when no catalog is
    /// installed or no hull carries that name.
    pub fn load_hull(&self, name: &str) -> (r: Option<&Hull>)
        ensures
            self.data is None ==> r is None,
            self.data matches Some(d) ==> (match spec_key_index(d.hull@, name@, 0) {
                Some(i) => r matches Some(h) && *h == d.hull@[i].1,
                None => r is None,
            }),
    {
        match &self.data {
            None => None,
            Some(d) => {
                let n = d.hull.len();
                let mut i: usize = 0;
                while i < n
                    invariant
                        i <= n,
                        n == d.hull@.len(),
                        self.data == Some(*d),
                        spec_key_index(d.hull@, name@, 0) == spec_key_index(
                            d.hull@,
                            name@,
                            i as int,
                        ),
                    decreases n - i,
                {
                    if d.hull[i].0 == name.to_owned() {
                        return Some(&d.hull[i].1);
                    }
                    i = i + 1;
                }
                None
            },
        }
    }
}

} // verus!
