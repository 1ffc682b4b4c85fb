//! Pattern instructions: how one parameter, or the return value, travels
//! between the safe function and the raw call.

use crate::error::agrees;
use crate::error::Fault;
use crate::model::view_opt;
use crate::text::chars_of;
use crate::text::cut;
use crate::text::lemma_pieces_members;
use crate::text::pieces;
use crate::text::same_text;
use crate::text::text_of;
use crate::text::views;
use vstd::prelude::*;

verus! {

/// How the raw return value is compared with a literal.
#[derive(Debug, Copy, Clone, PartialEq, Eq, Structural)]
pub enum Comparator {
    Equal,
    Less,
    Greater,
    LessEqual,
    GreaterEqual,
    NotEqual,
}

impl Comparator {
    /// The comparator that holds exactly when `self` does not.
    pub open spec fn negated(self) -> Comparator {
        match self {
            Comparator::Equal => Comparator::NotEqual,
            Comparator::Less => Comparator::GreaterEqual,
            Comparator::Greater => Comparator::LessEqual,
            Comparator::LessEqual => Comparator::Greater,
            Comparator::GreaterEqual => Comparator::Less,
            Comparator::NotEqual => Comparator::Equal,
        }
    }

    /// The comparator that holds exactly when `self` does not.
    pub fn negate(self) -> (r: Comparator)
        ensures
            r == self.negated(),
    {
        match self {
            Comparator::Equal => Comparator::NotEqual,
            Comparator::Less => Comparator::GreaterEqual,
            Comparator::Greater => Comparator::LessEqual,
            Comparator::LessEqual => Comparator::Greater,
            Comparator::GreaterEqual => Comparator::Less,
            Comparator::NotEqual => Comparator::Equal,
        }
    }

    /// The comparator as it is written.
    pub open spec fn symbol(self) -> Seq<char> {
        match self {
            Comparator::Equal => "=="@,
            Comparator::Less => "<"@,
            Comparator::Greater => ">"@,
            Comparator::LessEqual => "<="@,
            Comparator::GreaterEqual => ">="@,
            Comparator::NotEqual => "!="@,
        }
    }

    /// The comparator as it is written.
    pub fn text(self) -> (r: &'static str)
        ensures
            r@ == self.symbol(),
    {
        match self {
            Comparator::Equal => "==",
            Comparator::Less => "<",
            Comparator::Greater => ">",
            Comparator::LessEqual => "<=",
            Comparator::GreaterEqual => ">=",
            Comparator::NotEqual => "!=",
        }
    }
}

/// A pattern instruction. The names are names of parameters of the
/// prototype that the instruction belongs to.
#[derive(Debug, Clone, PartialEq, Eq)]
pub enum Instruction<S> {
    /// `NEW name`: the parameter is an output slot that the call fills.
    New(S),
    /// `STR name`: the parameter is a borrowed null-terminated string.
    Str(S),
    /// `RAW name`: the parameter is an untyped handle, passed through.
    Raw(S),
    /// `VAL name`: the parameter is passed by value.
    Val(S),
    /// `OK comparator literal`: the call succeeded when its return value
    /// compares so with the literal.
    Check(Comparator, S),
    /// `MUT name`: the parameter is a scalar that the call may change.
    Mut(S),
    /// `OPT_MUT name`: as `MUT`, and the caller may leave it out.
    OptMut(S),
    /// `OLD name`: the parameter is a handle that the call releases.
    Old(S),
    /// `SLICE length name`: the two parameters are the length and the
    /// start of a sequence of scalars.
    Slice(S, S),
    /// `OUT` or `OUT name`: the return value, or the named parameter, which
    /// an earlier instruction has bound, is a result of the safe function.
    Out(Option<S>),
    /// `OUT_VEC capacity name` or `OUT_VEC capacity name source`: the two
    /// parameters are the capacity and the start of a buffer that the call
    /// fills; the count of what it wrote is the return value, or `source`.
    OutVec(S, S, Option<S>),
}

impl View for Instruction<String> {
    type V = Instruction<Seq<char>>;

    open spec fn view(&self) -> Instruction<Seq<char>> {
        match self {
            Instruction::New(a) => Instruction::New(a@),
            Instruction::Str(a) => Instruction::Str(a@),
            Instruction::Raw(a) => Instruction::Raw(a@),
            Instruction::Val(a) => Instruction::Val(a@),
            Instruction::Check(c, a) => Instruction::Check(*c, a@),
            Instruction::Mut(a) => Instruction::Mut(a@),
            Instruction::OptMut(a) => Instruction::OptMut(a@),
            Instruction::Old(a) => Instruction::Old(a@),
            Instruction::Slice(a, b) => Instruction::Slice(a@, b@),
            Instruction::Out(a) => Instruction::Out(view_opt(*a)),
            Instruction::OutVec(a, b, c) => Instruction::OutVec(a@, b@, view_opt(*c)),
        }
    }
}

/// The comparator that `word` writes, if it writes one.
pub open spec fn comparator(word: Seq<char>) -> Option<Comparator> {
    if word == "="@ {
        Some(Comparator::Equal)
    } else if word == "<"@ {
        Some(Comparator::Less)
    } else if word == ">"@ {
        Some(Comparator::Greater)
    } else if word == "<="@ {
        Some(Comparator::LessEqual)
    } else if word == ">="@ {
        Some(Comparator::GreaterEqual)
    } else if word == "!="@ {
        Some(Comparator::NotEqual)
    } else {
        None
    }
}

/// The word at position `i`, if there are that many.
pub open spec fn operand(t: Seq<Seq<char>>, i: int) -> Option<Seq<char>> {
    if 0 <= i < t.len() {
        Some(t[i])
    } else {
        None
    }
}

/// The instruction that `text` writes. The text is cut at every single
/// space; the first piece is the tag and the next ones are the operands.
/// Pieces beyond the operands of the tag are ignored. A tag that is not
/// known, an operand that is missing, and a comparator that is not known
/// are all `UnknownModifier`.
pub open spec fn read(text: Seq<char>) -> Result<Instruction<Seq<char>>, Fault> {
    let t = pieces(text, seq![' ']);
    let tag = t[0];
    let a = operand(t, 1);
    let b = operand(t, 2);
    let c = operand(t, 3);
    if tag == "OUT"@ {
        Ok(Instruction::Out(a))
    } else if a is None {
        Err(Fault::UnknownModifier)
    } else if tag == "NEW"@ {
        Ok(Instruction::New(a->0))
    } else if tag == "STR"@ {
        Ok(Instruction::Str(a->0))
    } else if tag == "RAW"@ {
        Ok(Instruction::Raw(a->0))
    } else if tag == "VAL"@ {
        Ok(Instruction::Val(a->0))
    } else if tag == "MUT"@ {
        Ok(Instruction::Mut(a->0))
    } else if tag == "OPT_MUT"@ {
        Ok(Instruction::OptMut(a->0))
    } else if tag == "OLD"@ {
        Ok(Instruction::Old(a->0))
    } else if b is None {
        Err(Fault::UnknownModifier)
    } else if tag == "OK"@ {
        match comparator(a->0) {
            Some(cmp) => Ok(Instruction::Check(cmp, b->0)),
            None => Err(Fault::UnknownModifier),
        }
    } else if tag == "SLICE"@ {
        Ok(Instruction::Slice(a->0, b->0))
    } else if tag == "OUT_VEC"@ {
        Ok(Instruction::OutVec(a->0, b->0, c))
    } else {
        Err(Fault::UnknownModifier)
    }
}

/// The comparator that `word` writes, if it writes one.
fn comparator_of(word: &str) -> (r: Option<Comparator>)
    ensures
        r == comparator(word@),
{
    if same_text(word, "=") {
        Some(Comparator::Equal)
    } else if same_text(word, "<") {
        Some(Comparator::Less)
    } else if same_text(word, ">") {
        Some(Comparator::Greater)
    } else if same_text(word, "<=") {
        Some(Comparator::LessEqual)
    } else if same_text(word, ">=") {
        Some(Comparator::GreaterEqual)
    } else if same_text(word, "!=") {
        Some(Comparator::NotEqual)
    } else {
        None
    }
}

/// The word at position `i`, if there are that many.
fn operand_of(t: &Vec<Vec<char>>, i: usize) -> (r: Option<String>)
    ensures
        view_opt(r) == operand(views(t@), i as int),
{
    if i < t.len() {
        Some(text_of(&t[i]))
    } else {
        None
    }
}

impl Instruction<String> {
    /// Reads an instruction from its text.
    pub fn parse(text: &str) -> (r: Result<Instruction<String>, Fault>)
        ensures
            agrees(r, read(text@)),
    {
        let v = chars_of(text);
        let space: Vec<char> = vec![' '];
        assert(space@ =~= seq![' ']);
        let t = cut(&v, &space);
        proof {
            lemma_pieces_members(v@, space@);
        }
        let tag = text_of(&t[0]);
        let tag = tag.as_str();
        let a = operand_of(&t, 1);
        let b = operand_of(&t, 2);
        let c = operand_of(&t, 3);
        if same_text(tag, "OUT") {
            return Ok(Instruction::Out(a));
        }
        let a = match a {
            Some(a) => a,
            None => {
                return Err(Fault::UnknownModifier);
            },
        };
        if same_text(tag, "NEW") {
            Ok(Instruction::New(a))
        } else if same_text(tag, "STR") {
            Ok(Instruction::Str(a))
        } else if same_text(tag, "RAW") {
            Ok(Instruction::Raw(a))
        } else if same_text(tag, "VAL") {
            Ok(Instruction::Val(a))
        } else if same_text(tag, "MUT") {
            Ok(Instruction::Mut(a))
        } else if same_text(tag, "OPT_MUT") {
            Ok(Instruction::OptMut(a))
        } else if same_text(tag, "OLD") {
            Ok(Instruction::Old(a))
        } else {
            let b = match b {
                Some(b) => b,
                None => {
                    return Err(Fault::UnknownModifier);
                },
            };
            if same_text(tag, "OK") {
                match comparator_of(a.as_str()) {
                    Some(cmp) => Ok(Instruction::Check(cmp, b)),
                    None => Err(Fault::UnknownModifier),
                }
            } else if same_text(tag, "SLICE") {
                Ok(Instruction::Slice(a, b))
            } else if same_text(tag, "OUT_VEC") {
                Ok(Instruction::OutVec(a, b, c))
            } else {
                Err(Fault::UnknownModifier)
            }
        }
    }
}

} // verus!
