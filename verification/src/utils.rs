//! Various utilities used throughout the library.

use vstd::prelude::*;
use vstd::std_specs::iter::IteratorSpec;

use crate::error::{DeltaResult, Error, ErrorV};

verus! {

/// Dual of the `FromIterator` trait, similar to how `Into` is the dual of `From`. It can
/// drastically simplify type bounds. For example, `CollectInto` allows to write this:
///
/// ```ignored
/// fn foo(arg: impl CollectInto<Foo>) -> Foo {
///     arg.collect_into()
/// }
/// ```
///
/// instead of the much more verbose:
///
/// ```ignored
/// fn foo<T>(arg: impl IntoIterator<Item = T>) -> Foo
/// where
///     Foo: FromIterator<T>,
/// {
///     Foo::from_iter(arg)
/// }
/// ```
pub trait CollectInto<T>: IntoIterator + Sized {
    /// Collects this iterable into a `T`
    fn collect_into(self) -> T;
}

impl<A> CollectInto<Vec<A>> for Vec<A> {
    fn collect_into(self) -> (items: Vec<A>)
        ensures
            items@ == self@,
    {
        self
    }
}

/// What is said of a time that does not fit.
pub open spec fn timestamp_too_large() -> ErrorV {
    ErrorV::Generic("Current timestamp exceeds i64 millisecond range"@)
}

/// What is said of a clock that is before the epoch.
pub open spec fn time_before_epoch(why: Seq<char>) -> ErrorV {
    ErrorV::Generic("System time before Unix epoch: "@ + why)
}

/// The current time in milliseconds since Unix epoch, from what the system clock says: the
/// milliseconds since the epoch, or why there are none.
pub fn current_time_ms(since_epoch: Result<u128, String>) -> (ms: DeltaResult<i64>)
    ensures
        match since_epoch {
            Ok(millis) => if millis <= i64::MAX {
                ms is Ok && ms->Ok_0 == millis
            } else {
                ms is Err && ms->Err_0@ == timestamp_too_large()
            },
            Err(why) => ms is Err && ms->Err_0@ == time_before_epoch(why@),
        },
{
    match since_epoch {
        Ok(millis) => if millis <= 0x7fff_ffff_ffff_ffff {
            Ok(millis as i64)
        } else {
            Err(Error::generic("Current timestamp exceeds i64 millisecond range"))
        },
        Err(why) => Err(
            Error::Generic("System time before Unix epoch: ".to_string().concat(why.as_str())),
        ),
    }
}

/// Extension trait for folding zero or one value from an [`Option`] into a base value.
pub trait FoldWithOption: Sized {
    /// Applies an optional fold operation `f` to `self` if `opt` is [`Some`]; otherwise returns
    /// `self` unchanged.
    ///
    /// Similar to `opt.iter().fold(self, |acc, value| f(acc, value))`, but accepting `FnOnce`
    /// instead of requiring `FnMut`, and with the base value as receiver instead of the option.
    fn fold_with<U, F: FnOnce(Self, U) -> Self>(self, opt: Option<U>, f: F) -> (folded: Self)
        requires
            opt matches Some(value) ==> call_requires(f, (self, value)),
        ensures
            match opt {
                Some(value) => call_ensures(f, (self, value), folded),
                None => folded == self,
            },
    ;

    /// Fallible [`fold_with`](Self::fold_with): applies `Result`-returning `f` to `self` if `opt`
    /// is [`Some`], otherwise returns `self` unchanged (wrapped in `Ok`).
    fn try_fold_with<U, E, F: FnOnce(Self, U) -> Result<Self, E>>(self, opt: Option<U>, f: F) -> (
    folded: Result<Self, E>)
        requires
            opt matches Some(value) ==> call_requires(f, (self, value)),
        ensures
            match opt {
                Some(value) => call_ensures(f, (self, value), folded),
                None => folded == Ok::<_, E>(self),
            },
    ;
}

// Blanket impl -- every type can fold_with an Option.
impl<T: Sized> FoldWithOption for T {
    fn fold_with<U, F: FnOnce(Self, U) -> Self>(self, opt: Option<U>, f: F) -> (folded: Self) {
        match opt {
            Some(value) => f(self, value),
            None => self,
        }
    }

    fn try_fold_with<U, E, F: FnOnce(Self, U) -> Result<Self, E>>(self, opt: Option<U>, f: F) -> (
    folded: Result<Self, E>) {
        match opt {
            Some(value) => f(self, value),
            None => Ok(self),
        }
    }
}

/// Iterator adaptor that executes a closure when fully exhausted.
pub struct OnComplete<I, F: FnOnce()> {
    pub inner: I,
    pub on_complete: Option<F>,
}

/// Extension trait for adding completion callbacks to iterators.
pub trait IteratorExt: Iterator + Sized {
    /// Wraps this iterator to call a closure when fully exhausted.
    ///
    /// The closure is called only when `next()` returns `None`. If the iterator
    /// is dropped before exhaustion, the closure is not called.
    fn on_complete<F: FnOnce()>(self, f: F) -> (adaptor: OnComplete<Self, F>)
        ensures
            adaptor == (OnComplete { inner: self, on_complete: Some(f) }),
    ;
}

impl<I: Iterator> IteratorExt for I {
    fn on_complete<F: FnOnce()>(self, f: F) -> (adaptor: OnComplete<Self, F>) {
        OnComplete { inner: self, on_complete: Some(f) }
    }
}

impl<I: Iterator, F: FnOnce()> OnComplete<I, F> {
    /// The next item of the inner iterator. The first time that there is none, the closure is
    /// called, and it is called no more after that.
    pub fn next(&mut self) -> (item: Option<I::Item>)
        requires
            old(self).on_complete matches Some(f) ==> call_requires(f, ()),
        ensures
            match item {
                Some(_) => final(self).on_complete == old(self).on_complete,
                None => final(self).on_complete is None && (old(self).on_complete matches Some(f)
                    ==> call_ensures(f, (), ())),
            },
            old(self).inner.obeys_prophetic_iter_laws() ==> {
                if old(self).inner.remaining().len() > 0 {
                    item == Some(old(self).inner.remaining()[0])
                        && final(self).inner.remaining()
                        == old(self).inner.remaining().drop_first()
                } else {
                    item is None && final(self).inner.remaining() == old(self).inner.remaining()
                }
            },
            final(self).inner.obeys_prophetic_iter_laws()
                == old(self).inner.obeys_prophetic_iter_laws(),
    {
        match self.inner.next() {
            Some(item) => Some(item),
            None => {
                if let Some(f) = self.on_complete.take() {
                    f();
                }
                None
            },
        }
    }
}

} // verus!
