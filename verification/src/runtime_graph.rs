//! The loaded graph and path resolution against it.

use crate::path::Fragment;
use crate::path::Path;
use crate::runtime::container::first_named;
use crate::runtime::container::lemma_first_named_none;
use crate::runtime::obj_name;
use crate::runtime::container::Container;
use crate::runtime::RuntimeObject;
use std::rc::Rc;
use vstd::prelude::*;

verus! {

/// The span of compiled-format versions this engine understands.  A
/// document outside it is rejected at load time, distinctly from malformed
/// content.
pub const MIN_SUPPORTED_INK_VERSION: u32 = 17;

pub const MAX_SUPPORTED_INK_VERSION: u32 = 21;

/// Whether a document of format version `v` can be loaded.
pub fn version_supported(v: u32) -> (r: bool)
    ensures
        r == (MIN_SUPPORTED_INK_VERSION <= v <= MAX_SUPPORTED_INK_VERSION),
{
    MIN_SUPPORTED_INK_VERSION <= v && v <= MAX_SUPPORTED_INK_VERSION
}

/// A loaded story graph: the format version it was compiled for, and the
/// root container of all content.
#[derive(Debug)]
pub struct RuntimeGraph {
    pub ink_version: u32,
    pub root_container: Rc<Container>,
}

/// Resolution of the remaining fragments against the current container.
/// `ancestors` is the chain walked so far, each with the object that wraps
/// it (`None` for the root); `cur_obj` is the object wrapping `cur`.  An
/// `Index` out of range, a `Name` no direct child bears, a descent through
/// a non-container, or a `Parent` step above the root all yield `None`.
pub open spec fn resolve_from(
    ancestors: Seq<(Container, Option<RuntimeObject>)>,
    cur: Container,
    cur_obj: Option<RuntimeObject>,
    frags: Seq<Fragment>,
) -> Option<RuntimeObject>
    decreases frags.len(),
{
    if frags.len() == 0 {
        cur_obj
    } else {
        let rest = frags.drop_first();
        match frags[0] {
            Fragment::Index(i) => {
                if i < cur.content@.len() {
                    let child = cur.content@[i as int];
                    if rest.len() == 0 {
                        Some(child)
                    } else {
                        match child {
                            RuntimeObject::Container(c) => resolve_from(
                                ancestors.push((cur, cur_obj)),
                                *c,
                                Some(child),
                                rest,
                            ),
                            _ => None,
                        }
                    }
                } else {
                    None
                }
            },
            Fragment::Name(s) => {
                let k = first_named(cur.content@, s@);
                if k >= 0 {
                    let child = cur.content@[k];
                    if rest.len() == 0 {
                        Some(child)
                    } else {
                        match child {
                            RuntimeObject::Container(c) => resolve_from(
                                ancestors.push((cur, cur_obj)),
                                *c,
                                Some(child),
                                rest,
                            ),
                            _ => None,
                        }
                    }
                } else {
                    None
                }
            },
            Fragment::Parent => {
                if ancestors.len() > 0 {
                    let up = ancestors.last();
                    if rest.len() == 0 {
                        up.1
                    } else {
                        resolve_from(ancestors.drop_last(), up.0, up.1, rest)
                    }
                } else {
                    None
                }
            },
        }
    }
}

/// What resolving `p` against the whole graph yields.
pub open spec fn resolution(g: RuntimeGraph, p: Path) -> Option<RuntimeObject> {
    resolve_from(Seq::empty(), *g.root_container, None, p.fragments@)
}

impl RuntimeGraph {
    /// Walk `path` from the root, one fragment per level: `Index` takes the
    /// child at that position, `Name` the first direct child container so
    /// named, `Parent` steps back up.  The final fragment's referent is the
    /// result even when it is not a container; any miss yields `None`.
    pub fn resolve_path(&self, path: &Path) -> (r: Option<&RuntimeObject>)
        ensures
            r is Some <==> resolution(*self, *path) is Some,
            r matches Some(o) ==> resolution(*self, *path) == Some(*o),
    {
        let m = path.fragments.len();
        let mut cur: &Rc<Container> = &self.root_container;
        let mut cur_obj: Option<&RuntimeObject> = None;
        let mut anc: Vec<(&Rc<Container>, Option<&RuntimeObject>)> = Vec::new();
        let mut k: usize = 0;
        proof {
            assert(path.fragments@.skip(0) =~= path.fragments@);
            assert(anc@.map_values(
                |p: (&Rc<Container>, Option<&RuntimeObject>)|
                    {
                        (**p.0, match p.1 {
                            Some(o) => Some(*o),
                            None => None,
                        })
                    },
            ) =~= Seq::<(Container, Option<RuntimeObject>)>::empty());
        }
        while k < m
            invariant
                k <= m,
                m == path.fragments@.len(),
                anc@.len() <= k,
                resolution(*self, *path) == resolve_from(
                    anc@.map_values(
                        |p: (&Rc<Container>, Option<&RuntimeObject>)|
                            {
                                (**p.0, match p.1 {
                                    Some(o) => Some(*o),
                                    None => None,
                                })
                            },
                    ),
                    **cur,
                    match cur_obj {
                        Some(o) => Some(*o),
                        None => None,
                    },
                    path.fragments@.skip(k as int),
                ),
            decreases m - k,
        {
            let ghost ganc = anc@.map_values(
                |p: (&Rc<Container>, Option<&RuntimeObject>)|
                    {
                        (**p.0, match p.1 {
                            Some(o) => Some(*o),
                            None => None,
                        })
                    },
            );
            proof {
                assert(path.fragments@.skip(k as int)[0] == path.fragments@[k as int]);
                assert(path.fragments@.skip(k as int).drop_first() =~= path.fragments@.skip(
                    k as int + 1,
                ));
            }
            let frag = &path.fragments[k];
            match frag {
                Fragment::Index(i) => {
                    let i = *i;
                    if i < cur.content.len() {
                        let child = &cur.content[i];
                        if k == m - 1 {
                            return Some(child);
                        }
                        match child {
                            RuntimeObject::Container(c) => {
                                anc.push((cur, cur_obj));
                                proof {
                                    assert(anc@.map_values(
                                        |p: (&Rc<Container>, Option<&RuntimeObject>)|
                                            {
                                                (**p.0, match p.1 {
                                                    Some(o) => Some(*o),
                                                    None => None,
                                                })
                                            },
                                    ) =~= ganc.push((**cur, match cur_obj {
                                        Some(o) => Some(*o),
                                        None => None,
                                    })));
                                }
                                cur_obj = Some(child);
                                cur = c;
                            },
                            _ => {
                                return None;
                            },
                        }
                    } else {
                        return None;
                    }
                },
                Fragment::Name(s) => {
                    match cur.search_by_name(s.as_str()) {
                        Some(child) => {
                            if k == m - 1 {
                                return Some(child);
                            }
                            match child {
                                RuntimeObject::Container(c) => {
                                    anc.push((cur, cur_obj));
                                    proof {
                                        assert(anc@.map_values(
                                            |p: (&Rc<Container>, Option<&RuntimeObject>)|
                                                {
                                                    (**p.0, match p.1 {
                                                        Some(o) => Some(*o),
                                                        None => None,
                                                    })
                                                },
                                        ) =~= ganc.push((**cur, match cur_obj {
                                            Some(o) => Some(*o),
                                            None => None,
                                        })));
                                    }
                                    cur_obj = Some(child);
                                    cur = c;
                                },
                                _ => {
                                    return None;
                                },
                            }
                        },
                        None => {
                            return None;
                        },
                    }
                },
                Fragment::Parent => {
                    match anc.pop() {
                        Some(up) => {
                            proof {
                                assert(anc@.map_values(
                                    |p: (&Rc<Container>, Option<&RuntimeObject>)|
                                        {
                                            (**p.0, match p.1 {
                                                Some(o) => Some(*o),
                                                None => None,
                                            })
                                        },
                                ) =~= ganc.drop_last());
                                assert(ganc.last() == (**up.0, match up.1 {
                                    Some(o) => Some(*o),
                                    None => None,
                                }));
                            }
                            cur = up.0;
                            cur_obj = up.1;
                            if k == m - 1 {
                                return cur_obj;
                            }
                        },
                        None => {
                            proof {
                                assert(ganc.len() == 0);
                            }
                            return None;
                        },
                    }
                },
            }
            k = k + 1;
        }
        proof {
            assert(path.fragments@.skip(m as int) =~= Seq::<Fragment>::empty());
        }
        cur_obj
    }
}

/// Resolving an index at or past the end of the root's children yields no
/// result, never a partial one.
pub proof fn lemma_resolve_out_of_range_index(g: RuntimeGraph, p: Path, i: usize)
    requires
        p.fragments@.len() > 0,
        p.fragments@[0] == Fragment::Index(i),
        i >= g.root_container.content@.len(),
    ensures
        resolution(g, p) is None,
{
}

/// Resolving a name no direct child of the root bears yields no result.
pub proof fn lemma_resolve_unmatched_name(g: RuntimeGraph, p: Path, s: String)
    requires
        p.fragments@.len() > 0,
        p.fragments@[0] == Fragment::Name(s),
        forall|j: int|
            0 <= j < g.root_container.content@.len() ==> obj_name(
                #[trigger] g.root_container.content@[j],
            ) != Some(s@),
    ensures
        resolution(g, p) is None,
{
    lemma_first_named_none(g.root_container.content@, s@);
}

} // verus!
