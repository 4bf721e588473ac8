//! What an error carries along: the place where it was first wrapped, and
//! an ordered list of labelled values that say what was going on.
use crate::ansi::Ansi;
use crate::ansi::RESET;
use crate::logging::FileLineNo;
use vstd::prelude::*;
use vstd::string::*;

verus! {

/// One labelled value, rendered where the error passed.
#[derive(Debug)]
pub struct AuxItem {
    pub label: &'static str,
    pub value: String,
}

/// The context of an error.
#[derive(Debug)]
pub struct Oof {
    pub loc: FileLineNo,
    pub aux: Vec<AuxItem>,
}

/// An error with its context.
#[derive(Debug)]
pub struct BigOof<T> {
    pub err: T,
    pub oof: Oof,
}

/// The lines that show the labelled values, each on a line of its own.
pub open spec fn aux_lines(aux: Seq<AuxItem>) -> Seq<char>
    decreases aux.len(),
{
    if aux.len() == 0 {
        Seq::empty()
    } else {
        aux_lines(aux.drop_last()) + "\n«"@ + "\x1b[38;5;12m"@ + aux.last().label@ + RESET@ + "» "@
            + aux.last().value@
    }
}

impl Oof {
    /// A context that begins at `loc`.
    pub fn at(loc: FileLineNo, aux: Vec<AuxItem>) -> (o: Oof)
        ensures
            o.loc == loc,
            o.aux == aux,
    {
        Oof { loc, aux }
    }

    /// The context with more values after those that it has; the place
    /// where the error was first wrapped stays.
    pub fn and(self, more: Vec<AuxItem>) -> (o: Oof)
        ensures
            o.loc == self.loc,
            o.aux@ == self.aux@ + more@,
    {
        let Oof { loc, aux } = self;
        let mut aux = aux;
        let mut more = more;
        aux.append(&mut more);
        Oof { loc, aux }
    }

    pub open spec fn rendered(&self) -> Seq<char> {
        "\x1b[3m"@ + self.loc.rendered() + RESET@ + aux_lines(self.aux@)
    }

    /// The context as it is shown: the place, then the values.
    pub fn to_string(&self) -> (s: String)
        ensures
            s@ == self.rendered(),
    {
        let mut s = Ansi::italic().fg(self.loc.to_string().as_str()).to_string();
        let ghost head = s@;
        let mut i: usize = 0;
        while i < self.aux.len()
            invariant
                i <= self.aux@.len(),
                s@ == head + aux_lines(self.aux@.take(i as int)),
            decreases self.aux@.len() - i,
        {
            proof {
                assert(self.aux@.take(i + 1).drop_last() =~= self.aux@.take(i as int));
            }
            s.append("\n«");
            s.append(Ansi::blue().fg(self.aux[i].label).to_string().as_str());
            s.append("» ");
            s.append(self.aux[i].value.as_str());
            assert(s@ =~= head + aux_lines(self.aux@.take(i + 1)));
            i += 1;
        }
        assert(self.aux@.take(i as int) =~= self.aux@);
        s
    }
}

/// Wraps the error of a result with the context of the place it passed;
/// a result that went well passes as it is.
pub fn oof<T, Y>(r: Result<T, Y>, loc: FileLineNo, aux: Vec<AuxItem>) -> (wrapped: Result<
    T,
    BigOof<Y>,
>)
    ensures
        wrapped == (match r {
            Ok(v) => Ok::<T, BigOof<Y>>(v),
            Err(err) => Err::<T, BigOof<Y>>(BigOof { err, oof: Oof { loc, aux } }),
        }),
{
    match r {
        Ok(v) => Ok(v),
        Err(err) => Err(BigOof { err, oof: Oof { loc, aux } }),
    }
}

} // verus!
