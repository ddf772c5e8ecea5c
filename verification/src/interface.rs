use vstd::prelude::*;

verus! {

/// Ticks a raw key reading has to stay unchanged before it is reported.
/// 32768 ticks per second on the nice!nano: 100 ticks are around 3
/// milliseconds.
pub const DEBOUNCE_TICKS: u64 = 100;

/// Ticks within which releasing a tap-layer key still counts as a tap.
/// 5000 ticks are around 150 milliseconds on the nice!nano.
pub const TAP_TIME: u64 = 5000;

/// Number of layers that can be active at the same time.
pub const MAXIMUM_ACTIVE_LAYERS: usize = 6;

/// Number of bonds that can be stored permanently.
pub const MAXIMUM_BONDS: usize = 10;

/// Unwrapping of results whose error case cannot occur.
pub trait UnwrapInfelliable: Sized {
    type Output;

    spec fn spec_is_infallible(&self) -> bool;

    spec fn spec_unwrapped(&self) -> Self::Output;

    fn unwrap_infelliable(self) -> (value: Self::Output)
        requires
            self.spec_is_infallible(),
        ensures
            value == self.spec_unwrapped(),
    ;
}

impl<T, E> UnwrapInfelliable for Result<T, E> {
    type Output = T;

    open spec fn spec_is_infallible(&self) -> bool {
        self is Ok
    }

    open spec fn spec_unwrapped(&self) -> T {
        self->Ok_0
    }

    fn unwrap_infelliable(self) -> (value: T) {
        self.ok().unwrap()
    }
}

} // verus!

verus! {

/// A keyboard half's key matrix.
pub trait Scannable {
    /// Number of columns of one half.
    spec fn spec_columns() -> usize;

    /// Number of rows of one half.
    spec fn spec_rows() -> usize;

    /// The keys of both halves fit in a 64-bit key state.
    proof fn lemma_matrix_fits()
        ensures
            Self::spec_columns() * Self::spec_rows() * 2 <= 64,
    ;

    fn columns() -> (columns: usize)
        ensures
            columns == Self::spec_columns(),
    ;

    fn rows() -> (rows: usize)
        ensures
            rows == Self::spec_rows(),
    ;

    /// Number of layers that can be active at once; at least 1.
    fn maximum_active_layers() -> (count: usize)
        ensures
            count == MAXIMUM_ACTIVE_LAYERS,
    {
        MAXIMUM_ACTIVE_LAYERS
    }
}

/// Key counts derived from the matrix.
pub trait KeyboardExtension {
    /// Number of keys of one half.
    spec fn spec_keys_per_side() -> usize;

    /// Number of keys of both halves.
    spec fn spec_keys_total() -> usize;

    fn keys_per_side() -> (count: usize)
        ensures
            count == Self::spec_keys_per_side(),
    ;

    fn keys_total() -> (count: usize)
        ensures
            count == Self::spec_keys_total(),
    ;
}

impl<T: Scannable> KeyboardExtension for T {
    open spec fn spec_keys_per_side() -> usize {
        (T::spec_columns() * T::spec_rows()) as usize
    }

    open spec fn spec_keys_total() -> usize {
        (T::spec_columns() * T::spec_rows() * 2) as usize
    }

    fn keys_per_side() -> (count: usize) {
        proof {
            T::lemma_matrix_fits();
        }
        T::columns() * T::rows()
    }

    fn keys_total() -> (count: usize) {
        proof {
            T::lemma_matrix_fits();
        }
        T::columns() * T::rows() * 2
    }
}

} // verus!
