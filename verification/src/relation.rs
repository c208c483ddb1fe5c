//! Relationships between symbols.
use vstd::prelude::*;
use crate::symbol::NodeId;

verus! {

/// The kind of a relationship between two symbols.
#[derive(Clone, Copy, Debug, PartialEq, Eq, Hash, Structural)]
pub enum EdgeKind {
    Contains,
    Calls,
    Imports,
    Extends,
    Implements,
    References,
    OverridesMethod,
    HandlesRoute,
}

/// The name under which an edge kind is stored.
pub open spec fn edge_kind_name(k: EdgeKind) -> Seq<char> {
    match k {
        EdgeKind::Contains => "CONTAINS"@,
        EdgeKind::Calls => "CALLS"@,
        EdgeKind::Imports => "IMPORTS"@,
        EdgeKind::Extends => "EXTENDS"@,
        EdgeKind::Implements => "IMPLEMENTS"@,
        EdgeKind::References => "REFERENCES"@,
        EdgeKind::OverridesMethod => "OVERRIDES"@,
        EdgeKind::HandlesRoute => "HANDLES_ROUTE"@,
    }
}

/// The edge kind stored under a name.
pub open spec fn edge_kind_of_name(s: Seq<char>) -> Option<EdgeKind> {
    if s == "CONTAINS"@ {
        Some(EdgeKind::Contains)
    } else if s == "CALLS"@ {
        Some(EdgeKind::Calls)
    } else if s == "IMPORTS"@ {
        Some(EdgeKind::Imports)
    } else if s == "EXTENDS"@ {
        Some(EdgeKind::Extends)
    } else if s == "IMPLEMENTS"@ {
        Some(EdgeKind::Implements)
    } else if s == "REFERENCES"@ {
        Some(EdgeKind::References)
    } else if s == "OVERRIDES"@ {
        Some(EdgeKind::OverridesMethod)
    } else if s == "HANDLES_ROUTE"@ {
        Some(EdgeKind::HandlesRoute)
    } else {
        None
    }
}

impl EdgeKind {
    /// The name under which an edge kind is stored.
    pub fn as_neo4j_type(&self) -> (r: &'static str)
        ensures
            r@ == edge_kind_name(*self),
    {
        match self {
            EdgeKind::Contains => "CONTAINS",
            EdgeKind::Calls => "CALLS",
            EdgeKind::Imports => "IMPORTS",
            EdgeKind::Extends => "EXTENDS",
            EdgeKind::Implements => "IMPLEMENTS",
            EdgeKind::References => "REFERENCES",
            EdgeKind::OverridesMethod => "OVERRIDES",
            EdgeKind::HandlesRoute => "HANDLES_ROUTE",
        }
    }

    /// The edge kind stored under a name.
    pub fn from_neo4j_type(s: &str) -> (r: Option<EdgeKind>)
        ensures
            r == edge_kind_of_name(s@),
    {
        let all = [EdgeKind::Contains, EdgeKind::Calls, EdgeKind::Imports, EdgeKind::Extends, EdgeKind::Implements, EdgeKind::References, EdgeKind::OverridesMethod, EdgeKind::HandlesRoute];
        let mut i: usize = 0;
        while i < 8
            invariant
                0 <= i <= 8,
                all@ == seq![EdgeKind::Contains, EdgeKind::Calls, EdgeKind::Imports, EdgeKind::Extends, EdgeKind::Implements, EdgeKind::References, EdgeKind::OverridesMethod, EdgeKind::HandlesRoute],
                forall|j: int| 0 <= j < i ==> s@ != edge_kind_name(#[trigger] all@[j]),
            decreases 8 - i,
        {
            let k = all[i];
            if crate::text::str_eq(s, k.as_neo4j_type()) {
                proof {
                    lemma_edge_kind_name_roundtrip(k);
                }
                return Some(k);
            }
            i = i + 1;
        }
        proof {
            assert(s@ != edge_kind_name(all@[0]));
            assert(s@ != edge_kind_name(all@[1]));
            assert(s@ != edge_kind_name(all@[2]));
            assert(s@ != edge_kind_name(all@[3]));
            assert(s@ != edge_kind_name(all@[4]));
            assert(s@ != edge_kind_name(all@[5]));
            assert(s@ != edge_kind_name(all@[6]));
            assert(s@ != edge_kind_name(all@[7]));
        }
        None
    }
}

/// Reading back the label of a value gives the value.
pub proof fn lemma_edge_kind_name_roundtrip(k: EdgeKind)
    ensures
        edge_kind_of_name(edge_kind_name(k)) == Some(k),
{
    reveal_strlit("CONTAINS");
    reveal_strlit("CALLS");
    reveal_strlit("IMPORTS");
    reveal_strlit("EXTENDS");
    reveal_strlit("IMPLEMENTS");
    reveal_strlit("REFERENCES");
    reveal_strlit("OVERRIDES");
    reveal_strlit("HANDLES_ROUTE");
    match k {
        EdgeKind::Contains => {
        },
        EdgeKind::Calls => {
            assert("CALLS"@ != "CONTAINS"@) by { assert("CALLS"@.len() != "CONTAINS"@.len() || "CALLS"@[0] != "CONTAINS"@[0] || "CALLS"@[1] != "CONTAINS"@[1] || "CALLS"@[2] != "CONTAINS"@[2]); }
        },
        EdgeKind::Imports => {
            assert("IMPORTS"@ != "CONTAINS"@) by { assert("IMPORTS"@.len() != "CONTAINS"@.len() || "IMPORTS"@[0] != "CONTAINS"@[0] || "IMPORTS"@[1] != "CONTAINS"@[1] || "IMPORTS"@[2] != "CONTAINS"@[2]); }
            assert("IMPORTS"@ != "CALLS"@) by { assert("IMPORTS"@.len() != "CALLS"@.len() || "IMPORTS"@[0] != "CALLS"@[0] || "IMPORTS"@[1] != "CALLS"@[1] || "IMPORTS"@[2] != "CALLS"@[2]); }
        },
        EdgeKind::Extends => {
            assert("EXTENDS"@ != "CONTAINS"@) by { assert("EXTENDS"@.len() != "CONTAINS"@.len() || "EXTENDS"@[0] != "CONTAINS"@[0] || "EXTENDS"@[1] != "CONTAINS"@[1] || "EXTENDS"@[2] != "CONTAINS"@[2]); }
            assert("EXTENDS"@ != "CALLS"@) by { assert("EXTENDS"@.len() != "CALLS"@.len() || "EXTENDS"@[0] != "CALLS"@[0] || "EXTENDS"@[1] != "CALLS"@[1] || "EXTENDS"@[2] != "CALLS"@[2]); }
            assert("EXTENDS"@ != "IMPORTS"@) by { assert("EXTENDS"@.len() != "IMPORTS"@.len() || "EXTENDS"@[0] != "IMPORTS"@[0] || "EXTENDS"@[1] != "IMPORTS"@[1] || "EXTENDS"@[2] != "IMPORTS"@[2]); }
        },
        EdgeKind::Implements => {
            assert("IMPLEMENTS"@ != "CONTAINS"@) by { assert("IMPLEMENTS"@.len() != "CONTAINS"@.len() || "IMPLEMENTS"@[0] != "CONTAINS"@[0] || "IMPLEMENTS"@[1] != "CONTAINS"@[1] || "IMPLEMENTS"@[2] != "CONTAINS"@[2]); }
            assert("IMPLEMENTS"@ != "CALLS"@) by { assert("IMPLEMENTS"@.len() != "CALLS"@.len() || "IMPLEMENTS"@[0] != "CALLS"@[0] || "IMPLEMENTS"@[1] != "CALLS"@[1] || "IMPLEMENTS"@[2] != "CALLS"@[2]); }
            assert("IMPLEMENTS"@ != "IMPORTS"@) by { assert("IMPLEMENTS"@.len() != "IMPORTS"@.len() || "IMPLEMENTS"@[0] != "IMPORTS"@[0] || "IMPLEMENTS"@[1] != "IMPORTS"@[1] || "IMPLEMENTS"@[2] != "IMPORTS"@[2]); }
            assert("IMPLEMENTS"@ != "EXTENDS"@) by { assert("IMPLEMENTS"@.len() != "EXTENDS"@.len() || "IMPLEMENTS"@[0] != "EXTENDS"@[0] || "IMPLEMENTS"@[1] != "EXTENDS"@[1] || "IMPLEMENTS"@[2] != "EXTENDS"@[2]); }
        },
        EdgeKind::References => {
            assert("REFERENCES"@ != "CONTAINS"@) by { assert("REFERENCES"@.len() != "CONTAINS"@.len() || "REFERENCES"@[0] != "CONTAINS"@[0] || "REFERENCES"@[1] != "CONTAINS"@[1] || "REFERENCES"@[2] != "CONTAINS"@[2]); }
            assert("REFERENCES"@ != "CALLS"@) by { assert("REFERENCES"@.len() != "CALLS"@.len() || "REFERENCES"@[0] != "CALLS"@[0] || "REFERENCES"@[1] != "CALLS"@[1] || "REFERENCES"@[2] != "CALLS"@[2]); }
            assert("REFERENCES"@ != "IMPORTS"@) by { assert("REFERENCES"@.len() != "IMPORTS"@.len() || "REFERENCES"@[0] != "IMPORTS"@[0] || "REFERENCES"@[1] != "IMPORTS"@[1] || "REFERENCES"@[2] != "IMPORTS"@[2]); }
            assert("REFERENCES"@ != "EXTENDS"@) by { assert("REFERENCES"@.len() != "EXTENDS"@.len() || "REFERENCES"@[0] != "EXTENDS"@[0] || "REFERENCES"@[1] != "EXTENDS"@[1] || "REFERENCES"@[2] != "EXTENDS"@[2]); }
            assert("REFERENCES"@ != "IMPLEMENTS"@) by { assert("REFERENCES"@.len() != "IMPLEMENTS"@.len() || "REFERENCES"@[0] != "IMPLEMENTS"@[0] || "REFERENCES"@[1] != "IMPLEMENTS"@[1] || "REFERENCES"@[2] != "IMPLEMENTS"@[2]); }
        },
        EdgeKind::OverridesMethod => {
            assert("OVERRIDES"@ != "CONTAINS"@) by { assert("OVERRIDES"@.len() != "CONTAINS"@.len() || "OVERRIDES"@[0] != "CONTAINS"@[0] || "OVERRIDES"@[1] != "CONTAINS"@[1] || "OVERRIDES"@[2] != "CONTAINS"@[2]); }
            assert("OVERRIDES"@ != "CALLS"@) by { assert("OVERRIDES"@.len() != "CALLS"@.len() || "OVERRIDES"@[0] != "CALLS"@[0] || "OVERRIDES"@[1] != "CALLS"@[1] || "OVERRIDES"@[2] != "CALLS"@[2]); }
            assert("OVERRIDES"@ != "IMPORTS"@) by { assert("OVERRIDES"@.len() != "IMPORTS"@.len() || "OVERRIDES"@[0] != "IMPORTS"@[0] || "OVERRIDES"@[1] != "IMPORTS"@[1] || "OVERRIDES"@[2] != "IMPORTS"@[2]); }
            assert("OVERRIDES"@ != "EXTENDS"@) by { assert("OVERRIDES"@.len() != "EXTENDS"@.len() || "OVERRIDES"@[0] != "EXTENDS"@[0] || "OVERRIDES"@[1] != "EXTENDS"@[1] || "OVERRIDES"@[2] != "EXTENDS"@[2]); }
            assert("OVERRIDES"@ != "IMPLEMENTS"@) by { assert("OVERRIDES"@.len() != "IMPLEMENTS"@.len() || "OVERRIDES"@[0] != "IMPLEMENTS"@[0] || "OVERRIDES"@[1] != "IMPLEMENTS"@[1] || "OVERRIDES"@[2] != "IMPLEMENTS"@[2]); }
            assert("OVERRIDES"@ != "REFERENCES"@) by { assert("OVERRIDES"@.len() != "REFERENCES"@.len() || "OVERRIDES"@[0] != "REFERENCES"@[0] || "OVERRIDES"@[1] != "REFERENCES"@[1] || "OVERRIDES"@[2] != "REFERENCES"@[2]); }
        },
        EdgeKind::HandlesRoute => {
            assert("HANDLES_ROUTE"@ != "CONTAINS"@) by { assert("HANDLES_ROUTE"@.len() != "CONTAINS"@.len() || "HANDLES_ROUTE"@[0] != "CONTAINS"@[0] || "HANDLES_ROUTE"@[1] != "CONTAINS"@[1] || "HANDLES_ROUTE"@[2] != "CONTAINS"@[2]); }
            assert("HANDLES_ROUTE"@ != "CALLS"@) by { assert("HANDLES_ROUTE"@.len() != "CALLS"@.len() || "HANDLES_ROUTE"@[0] != "CALLS"@[0] || "HANDLES_ROUTE"@[1] != "CALLS"@[1] || "HANDLES_ROUTE"@[2] != "CALLS"@[2]); }
            assert("HANDLES_ROUTE"@ != "IMPORTS"@) by { assert("HANDLES_ROUTE"@.len() != "IMPORTS"@.len() || "HANDLES_ROUTE"@[0] != "IMPORTS"@[0] || "HANDLES_ROUTE"@[1] != "IMPORTS"@[1] || "HANDLES_ROUTE"@[2] != "IMPORTS"@[2]); }
            assert("HANDLES_ROUTE"@ != "EXTENDS"@) by { assert("HANDLES_ROUTE"@.len() != "EXTENDS"@.len() || "HANDLES_ROUTE"@[0] != "EXTENDS"@[0] || "HANDLES_ROUTE"@[1] != "EXTENDS"@[1] || "HANDLES_ROUTE"@[2] != "EXTENDS"@[2]); }
            assert("HANDLES_ROUTE"@ != "IMPLEMENTS"@) by { assert("HANDLES_ROUTE"@.len() != "IMPLEMENTS"@.len() || "HANDLES_ROUTE"@[0] != "IMPLEMENTS"@[0] || "HANDLES_ROUTE"@[1] != "IMPLEMENTS"@[1] || "HANDLES_ROUTE"@[2] != "IMPLEMENTS"@[2]); }
            assert("HANDLES_ROUTE"@ != "REFERENCES"@) by { assert("HANDLES_ROUTE"@.len() != "REFERENCES"@.len() || "HANDLES_ROUTE"@[0] != "REFERENCES"@[0] || "HANDLES_ROUTE"@[1] != "REFERENCES"@[1] || "HANDLES_ROUTE"@[2] != "REFERENCES"@[2]); }
            assert("HANDLES_ROUTE"@ != "OVERRIDES"@) by { assert("HANDLES_ROUTE"@.len() != "OVERRIDES"@.len() || "HANDLES_ROUTE"@[0] != "OVERRIDES"@[0] || "HANDLES_ROUTE"@[1] != "OVERRIDES"@[1] || "HANDLES_ROUTE"@[2] != "OVERRIDES"@[2]); }
        },
    }
}

/// A resolved edge between two known nodes.
#[derive(Clone, Copy, Debug, PartialEq, Eq, Structural)]
pub struct Edge {
    pub source: NodeId,
    pub target: NodeId,
    pub kind: EdgeKind,
    /// Line in the source file where this edge originates; zero where no line
    /// is meaningful.
    pub source_line: u32,
}

/// An unresolved edge whose target is still a name, as extraction produces it.
#[derive(Clone, Debug)]
pub struct RawEdge {
    pub source: NodeId,
    pub kind: EdgeKind,
    pub target_name: String,
    pub target_module: Option<String>,
    pub source_line: u32,
}

/// The mathematical value of a raw edge.
pub struct RawEdgeView {
    pub source: NodeId,
    pub kind: EdgeKind,
    pub target_name: Seq<char>,
    pub target_module: Option<Seq<char>>,
    pub source_line: u32,
}

impl View for RawEdge {
    type V = RawEdgeView;

    open spec fn view(&self) -> RawEdgeView {
        RawEdgeView {
            source: self.source,
            kind: self.kind,
            target_name: self.target_name@,
            target_module: crate::symbol::opt_view(self.target_module),
            source_line: self.source_line,
        }
    }
}

impl RawEdge {
    /// A copy of this raw edge.
    pub fn duplicate(&self) -> (r: RawEdge)
        ensures
            r@ == self@,
    {
        RawEdge {
            source: self.source,
            kind: self.kind,
            target_name: self.target_name.clone(),
            target_module: crate::symbol::copy_opt(&self.target_module),
            source_line: self.source_line,
        }
    }
}

} // verus!
