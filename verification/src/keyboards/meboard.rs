use vstd::prelude::*;

use crate::keys::codes::{A, B, C, D, F, G, N1, N2, N3, N4, N5, NONE, P, Q, R, S, SPACE, T, V, W, X, Z};
use crate::interface::Scannable;
use crate::keys::{Layer, Layout, Mapping};

verus! {

/// A one-half test keyboard of 5 columns and 4 rows.
pub struct Meboard;

/// Indices of the Meboard's layers.
pub const BASE: usize = 0;
pub const SPECIAL: usize = 1;
pub const TEST: usize = 2;

pub const COLUMNS: usize = 5;
pub const ROWS: usize = 4;

impl Scannable for Meboard {
    open spec fn spec_columns() -> usize {
        COLUMNS
    }

    open spec fn spec_rows() -> usize {
        ROWS
    }

    proof fn lemma_matrix_fits() {
    }

    fn columns() -> (columns: usize) {
        COLUMNS
    }

    fn rows() -> (rows: usize) {
        ROWS
    }
}

/// The base layer: a Colemak block, a tap-layer key to the test layer on
/// V and one to the special layer on the space bar.
pub open spec fn base_table() -> Seq<Mapping> {
    seq![
        Mapping::Key(Q), Mapping::Key(W), Mapping::Key(F), Mapping::Key(P), Mapping::Key(B),
        Mapping::Key(A), Mapping::Key(R), Mapping::Key(S), Mapping::Key(T), Mapping::Key(G),
        Mapping::Key(Z), Mapping::Key(X), Mapping::Key(C), Mapping::Key(D), Mapping::TapLayer(TEST, V),
        Mapping::Key(NONE), Mapping::Key(NONE), Mapping::Key(NONE), Mapping::Key(NONE), Mapping::TapLayer(SPECIAL, SPACE),
    ]
}

/// The special layer: digits on the top row.
pub open spec fn special_table() -> Seq<Mapping> {
    seq![
        Mapping::Key(N1), Mapping::Key(N2), Mapping::Key(N3), Mapping::Key(N4), Mapping::Key(N5),
        Mapping::Key(A), Mapping::Key(R), Mapping::Key(S), Mapping::Key(T), Mapping::Key(G),
        Mapping::Key(Z), Mapping::Key(X), Mapping::Key(C), Mapping::Key(D), Mapping::Key(V),
        Mapping::Key(NONE), Mapping::Key(NONE), Mapping::Key(NONE), Mapping::Key(NONE), Mapping::Key(NONE),
    ]
}

/// The test layer: the base block with a tap-layer key to the special
/// layer on Z.
pub open spec fn test_table() -> Seq<Mapping> {
    seq![
        Mapping::Key(Q), Mapping::Key(W), Mapping::Key(F), Mapping::Key(P), Mapping::Key(B),
        Mapping::Key(A), Mapping::Key(R), Mapping::Key(S), Mapping::Key(T), Mapping::Key(G),
        Mapping::TapLayer(SPECIAL, Z), Mapping::Key(X), Mapping::Key(C), Mapping::Key(D), Mapping::Key(V),
        Mapping::Key(NONE), Mapping::Key(NONE), Mapping::Key(NONE), Mapping::Key(NONE), Mapping::TapLayer(SPECIAL, SPACE),
    ]
}

/// Which table entry belongs to each key, in scan order (column after
/// column, top row first within a column).
pub open spec fn matrix_order() -> Seq<usize> {
    seq![4usize, 9, 14, 19, 3, 8, 13, 18, 2, 7, 12, 17, 1, 6, 11, 16, 0, 5, 10, 15]
}

impl Meboard {
    pub fn new() -> Self {
        Meboard
    }

    /// The Meboard's key tables and matrix.
    pub fn layout() -> (layout: Layout)
        ensures
            layout.wf(),
            layout.layers@.len() == 3,
            layout.key_count() == COLUMNS * ROWS,
            layout.tables() == seq![base_table(), special_table(), test_table()],
            layout.matrix@ == matrix_order(),
    {
        let spe_spc = Mapping::TapLayer(SPECIAL, SPACE);
        let base = vec![
            Mapping::Key(Q), Mapping::Key(W), Mapping::Key(F), Mapping::Key(P), Mapping::Key(B),
            Mapping::Key(A), Mapping::Key(R), Mapping::Key(S), Mapping::Key(T), Mapping::Key(G),
            Mapping::Key(Z), Mapping::Key(X), Mapping::Key(C), Mapping::Key(D), Mapping::TapLayer(TEST, V),
            Mapping::Key(NONE), Mapping::Key(NONE), Mapping::Key(NONE), Mapping::Key(NONE), spe_spc,
        ];
        let special = vec![
            Mapping::Key(N1), Mapping::Key(N2), Mapping::Key(N3), Mapping::Key(N4), Mapping::Key(N5),
            Mapping::Key(A), Mapping::Key(R), Mapping::Key(S), Mapping::Key(T), Mapping::Key(G),
            Mapping::Key(Z), Mapping::Key(X), Mapping::Key(C), Mapping::Key(D), Mapping::Key(V),
            Mapping::Key(NONE), Mapping::Key(NONE), Mapping::Key(NONE), Mapping::Key(NONE), Mapping::Key(NONE),
        ];
        let test = vec![
            Mapping::Key(Q), Mapping::Key(W), Mapping::Key(F), Mapping::Key(P), Mapping::Key(B),
            Mapping::Key(A), Mapping::Key(R), Mapping::Key(S), Mapping::Key(T), Mapping::Key(G),
            Mapping::TapLayer(SPECIAL, Z), Mapping::Key(X), Mapping::Key(C), Mapping::Key(D), Mapping::Key(V),
            Mapping::Key(NONE), Mapping::Key(NONE), Mapping::Key(NONE), Mapping::Key(NONE), spe_spc,
        ];
        let matrix: Vec<usize> = vec![
            4, 9, 14, 19,
            3, 8, 13, 18,
            2, 7, 12, 17,
            1, 6, 11, 16,
            0, 5, 10, 15,
        ];
        let layers = vec![base, special, test];
        let layout = Layout { layers, matrix };
        proof {
            assert(layout.layers@[0]@ =~= base_table());
            assert(layout.layers@[1]@ =~= special_table());
            assert(layout.layers@[2]@ =~= test_table());
            assert(layout.tables() =~= seq![base_table(), special_table(), test_table()]);
            assert(layout.matrix@ =~= matrix_order());
            assert forall|l: int, i: int|
                0 <= l < layout.layers@.len() && 0 <= i < layout.layers@[l]@.len() && (
                #[trigger] layout.layers@[l]@[i]).layer_target() is Some implies layout.layers@[l]@[i].layer_target()->0
                    < layout.layers@.len() by {
                assert(layout.layers@[l]@[i].layer_target()->0 <= 2);
            }
        }
        layout
    }
}

} // verus!
