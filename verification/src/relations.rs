//! Relation notation for the binding command: the membership relations a
//! requirement can state and the comparison relations a definition can
//! state, each with its fixed rendering, together with the requirement and
//! definition pairs that attach a relation to an expression.

use vstd::prelude::*;
use crate::program::Expr;
use crate::render::{IntoTex, instrs_tex};

verus! {

/// A membership relation of a requirement clause.
#[derive(Clone, Copy, Debug, PartialEq, Eq, Structural)]
pub enum ReqRel {
    In,
    NotIn,
}

/// A comparison relation of a definition clause.
#[derive(Clone, Copy, Debug, PartialEq, Eq, Structural)]
pub enum ValRel {
    EQ,
    NE,
    LT,
    LE,
    GT,
    GE,
}

/// The rendering of a membership relation.
pub open spec fn req_rel_tex(r: ReqRel) -> Seq<char> {
    match r {
        ReqRel::In => seq!['\\', 'i', 'n'],
        ReqRel::NotIn => seq!['\\', 'n', 'o', 't', 'i', 'n'],
    }
}

/// The rendering of a comparison relation.
pub open spec fn val_rel_tex(r: ValRel) -> Seq<char> {
    match r {
        ValRel::EQ => seq!['='],
        ValRel::NE => seq!['\\', 'n', 'e'],
        ValRel::LT => seq!['<'],
        ValRel::LE => seq!['\\', 'l', 'e'],
        ValRel::GT => seq!['>'],
        ValRel::GE => seq!['\\', 'g', 'e'],
    }
}

impl IntoTex for ReqRel {
    open spec fn tex(&self) -> Seq<char> {
        req_rel_tex(*self)
    }

    fn into_tex(&self) -> (r: String) {
        match self {
            ReqRel::In => {
                let s = "\\in";
                proof {
                    reveal_strlit("\\in");
                    assert(s@ =~= req_rel_tex(*self));
                }
                s.to_owned()
            },
            ReqRel::NotIn => {
                let s = "\\notin";
                proof {
                    reveal_strlit("\\notin");
                    assert(s@ =~= req_rel_tex(*self));
                }
                s.to_owned()
            },
        }
    }
}

impl IntoTex for ValRel {
    open spec fn tex(&self) -> Seq<char> {
        val_rel_tex(*self)
    }

    fn into_tex(&self) -> (r: String) {
        match self {
            ValRel::EQ => {
                let s = "=";
                proof {
                    reveal_strlit("=");
                    assert(s@ =~= val_rel_tex(*self));
                }
                s.to_owned()
            },
            ValRel::NE => {
                let s = "\\ne";
                proof {
                    reveal_strlit("\\ne");
                    assert(s@ =~= val_rel_tex(*self));
                }
                s.to_owned()
            },
            ValRel::LT => {
                let s = "<";
                proof {
                    reveal_strlit("<");
                    assert(s@ =~= val_rel_tex(*self));
                }
                s.to_owned()
            },
            ValRel::LE => {
                let s = "\\le";
                proof {
                    reveal_strlit("\\le");
                    assert(s@ =~= val_rel_tex(*self));
                }
                s.to_owned()
            },
            ValRel::GT => {
                let s = ">";
                proof {
                    reveal_strlit(">");
                    assert(s@ =~= val_rel_tex(*self));
                }
                s.to_owned()
            },
            ValRel::GE => {
                let s = "\\ge";
                proof {
                    reveal_strlit("\\ge");
                    assert(s@ =~= val_rel_tex(*self));
                }
                s.to_owned()
            },
        }
    }
}

/// A requirement clause: a membership relation applied to an expression.
#[derive(Debug)]
pub struct Req {
    pub rel: ReqRel,
    pub val: Expr,
}

/// A definition clause: a comparison relation applied to an expression.
#[derive(Debug)]
pub struct Def {
    pub rel: ValRel,
    pub val: Expr,
}

impl IntoTex for Req {
    open spec fn tex(&self) -> Seq<char> {
        req_rel_tex(self.rel) + seq![' '] + instrs_tex(self.val@)
    }

    fn into_tex(&self) -> (r: String) {
        let mut r = self.rel.into_tex();
        r.append(" ");
        let v = self.val.into_tex();
        r.append(v.as_str());
        proof {
            reveal_strlit(" ");
            assert(r@ =~= self.tex());
        }
        r
    }
}

impl IntoTex for Def {
    open spec fn tex(&self) -> Seq<char> {
        val_rel_tex(self.rel) + seq![' '] + instrs_tex(self.val@)
    }

    fn into_tex(&self) -> (r: String) {
        let mut r = self.rel.into_tex();
        r.append(" ");
        let v = self.val.into_tex();
        r.append(v.as_str());
        proof {
            reveal_strlit(" ");
            assert(r@ =~= self.tex());
        }
        r
    }
}

} // verus!
