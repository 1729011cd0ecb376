//! Removal from punctuated lists, done by popping the tail and pushing it
//! back, the way a list without random-access removal has to.

use vstd::prelude::*;

verus! {

/// Positional removal for list-like containers.
pub trait PunctuatedExt<T>: Sized {
    /// The elements the container holds.
    spec fn spec_elems(&self) -> Seq<T>;

    /// Removes and returns the element at `index`, popping all elements
    /// after it and pushing them back.
    fn remove(&mut self, index: usize) -> (r: T)
        requires
            index < old(self).spec_elems().len(),
        ensures
            final(self).spec_elems() == old(self).spec_elems().remove(index as int),
            r == old(self).spec_elems()[index as int],
    ;
}

impl<T> PunctuatedExt<T> for Vec<T> {
    open spec fn spec_elems(&self) -> Seq<T> {
        self@
    }

    fn remove(&mut self, index: usize) -> (r: T) {
        let ghost orig = self@;
        let mut stack: Vec<T> = Vec::new();
        while self.len() > index + 1
            invariant
                index < orig.len(),
                index + 1 <= self@.len() <= orig.len(),
                self@ == orig.take(self@.len() as int),
                stack@.len() == orig.len() - self@.len(),
                forall|j: int| 0 <= j < stack@.len() ==> #[trigger] stack@[j] == orig[
                    orig.len() - 1 - j
                ],
            decreases self@.len(),
        {
            let x = match self.pop() {
                Some(x) => x,
                None => {
                    proof {
                        assert(false);
                    }
                    unreached()
                },
            };
            proof {
                assert(self@ =~= orig.take(self@.len() as int));
            }
            stack.push(x);
        }
        let removed = match self.pop() {
            Some(x) => x,
            None => {
                proof {
                    assert(false);
                }
                unreached()
            },
        };
        proof {
            assert(self@ =~= orig.take(index as int));
        }
        while stack.len() > 0
            invariant
                index <= self@.len(),
                self@.len() + stack@.len() == orig.len() - 1,
                self@ == orig.remove(index as int).take(self@.len() as int),
                forall|j: int| 0 <= j < stack@.len() ==> #[trigger] stack@[j] == orig[
                    orig.len() - 1 - j
                ],
            decreases stack@.len(),
        {
            let x = match stack.pop() {
                Some(x) => x,
                None => {
                    proof {
                        assert(false);
                    }
                    unreached()
                },
            };
            proof {
                assert(orig[orig.len() - 1 - stack@.len()] == orig.remove(index as int)[
                    self@.len() as int
                ]);
            }
            self.push(x);
            proof {
                assert(self@ =~= orig.remove(index as int).take(self@.len() as int));
            }
        }
        proof {
            assert(orig.remove(index as int).take(orig.remove(index as int).len() as int)
                =~= orig.remove(index as int));
        }
        removed
    }
}

} // verus!
