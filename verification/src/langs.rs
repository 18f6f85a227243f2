//! Declared-language enumeration.
//!
//! The navigator exposes its declared languages as a heterogeneous array:
//! some elements carry text, others do not. Each element is modelled here as
//! an `Option<String>`, text or not. The enumeration yields the text values
//! in array order and silently skips the rest, as a finite, single-pass,
//! non-restartable sequence driven by an index cursor.

use vstd::prelude::*;

verus! {

/// The text values of `vals` in order, with the non-text elements dropped.
pub open spec fn texts(vals: Seq<Option<Seq<char>>>) -> Seq<Seq<char>>
    decreases vals.len(),
{
    if vals.len() == 0 {
        Seq::empty()
    } else {
        match vals[0] {
            Some(t) => seq![t] + texts(vals.drop_first()),
            None => texts(vals.drop_first()),
        }
    }
}

/// A single-pass cursor over the navigator's language array. Once a value
/// has been yielded the cursor has moved past it for good.
pub struct LangIter {
    pub values: Vec<Option<String>>,
    pub index: usize,
}

impl LangIter {
    /// The cursor never points beyond the array.
    pub open spec fn wf(self) -> bool {
        self.index <= self.values.len()
    }

    /// The text values this cursor has yet to yield, in order.
    pub open spec fn remaining(self) -> Seq<Seq<char>> {
        texts(self.values.deep_view().skip(self.index as int))
    }

    /// The next declared language: the first text value at or after the
    /// cursor, with every non-text element before it skipped, or nothing
    /// once only non-text elements remain.
    pub fn next(&mut self) -> (r: Option<String>)
        requires
            old(self).wf(),
        ensures
            final(self).wf(),
            match r {
                Some(s) => old(self).remaining().len() > 0 && s@ == old(self).remaining()[0]
                    && final(self).remaining() == old(self).remaining().drop_first(),
                None => old(self).remaining().len() == 0 && final(self).remaining().len() == 0,
            },
    {
        loop
            invariant
                self.wf(),
                self.values == old(self).values,
                self.remaining() == old(self).remaining(),
            decreases self.values.len() - self.index,
        {
            let ghost before = *self;
            if self.index >= self.values.len() {
                proof {
                    assert(self.values.deep_view().skip(self.index as int)
                        =~= Seq::<Option<Seq<char>>>::empty());
                }
                return None;
            }
            let i = self.index;
            self.index = i + 1;
            proof {
                let dv = self.values.deep_view();
                assert(dv.skip(i as int).drop_first() =~= dv.skip(i + 1));
                assert(dv.skip(i as int)[0] == dv[i as int]);
            }
            match &self.values[i] {
                Some(s) => {
                    return Some(s.clone());
                },
                None => {
                },
            }
        }
    }
}

/// Begin enumerating the given language array. The cursor starts at the
/// front, so everything the array holds is still to come.
pub fn lang(values: Vec<Option<String>>) -> (r: LangIter)
    ensures
        r.wf(),
        r.remaining() == texts(values.deep_view()),
{
    let it = LangIter { values, index: 0 };
    proof {
        assert(it.values.deep_view().skip(0) =~= it.values.deep_view());
    }
    it
}

} // verus!
