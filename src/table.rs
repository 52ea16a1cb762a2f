//! Bin configuration, the validated edge table built for it, and the binner that classifies
//! values against that table.
use crate::bins::{
    count_at_most, edges_valid, find_bin, free_of_nan, lemma_count_at_most_bounded,
    sorted_by_rank,
};
use crate::level::{is_finite_bits, Level};
use vstd::prelude::*;

verus! {

/// Why a configuration or an edge table built for it is refused.
#[derive(Clone, Copy, Debug, PartialEq, Eq, Structural)]
pub enum ConfigError {
    /// A bound of the decibel range is infinite or NaN.
    NonFiniteBound,
    /// The upper decibel bound is not above the lower one.
    EmptyRange,
    /// Fewer than three bins: fewer than two edges leave the edge spacing undefined.
    TooFewBins,
    /// The edge table does not hold one edge fewer than there are bins.
    WrongEdgeCount,
    /// An edge is NaN.
    NanEdge,
    /// The edges are not in non-decreasing order.
    UnorderedEdges,
}

/// Why a value cannot be classified.
#[derive(Clone, Copy, Debug, PartialEq, Eq, Structural)]
pub enum ClassifyError {
    /// NaN has no place in the order of the bins. (Infinities do: negative infinity falls in
    /// the bottom bin, positive infinity in the top bin.)
    NotANumber,
}

/// A decibel range and a number of bins. Edges are spaced evenly over the closed range, one
/// fewer than there are bins.
#[derive(Clone, Copy, Debug, PartialEq, Eq, Structural)]
pub struct BinConfig {
    pub db_min: Level,
    pub db_max: Level,
    pub bin_count: usize,
}

/// The first rule that a configuration breaks, if any.
pub open spec fn config_error(c: BinConfig) -> Option<ConfigError> {
    if !is_finite_bits(c.db_min.bits) || !is_finite_bits(c.db_max.bits) {
        Some(ConfigError::NonFiniteBound)
    } else if c.db_max.rank_spec() <= c.db_min.rank_spec() {
        Some(ConfigError::EmptyRange)
    } else if c.bin_count < 3 {
        Some(ConfigError::TooFewBins)
    } else {
        None
    }
}

/// The first rule that a configuration, or edges offered for it, break, if any.
pub open spec fn table_error(c: BinConfig, s: Seq<Level>) -> Option<ConfigError> {
    if config_error(c) is Some {
        config_error(c)
    } else if s.len() + 1 != c.bin_count {
        Some(ConfigError::WrongEdgeCount)
    } else if !free_of_nan(s) {
        Some(ConfigError::NanEdge)
    } else if !sorted_by_rank(s) {
        Some(ConfigError::UnorderedEdges)
    } else {
        None
    }
}

impl BinConfig {
    /// A configuration, refused where the range is not finite and increasing or where there
    /// are fewer than three bins.
    pub fn new(db_min: Level, db_max: Level, bin_count: usize) -> (r: Result<
        BinConfig,
        ConfigError,
    >)
        ensures
            config_error(BinConfig { db_min, db_max, bin_count }) is None ==> r == Ok::<
                BinConfig,
                ConfigError,
            >(BinConfig { db_min, db_max, bin_count }),
            config_error(BinConfig { db_min, db_max, bin_count }) matches Some(e) ==> r == Err::<
                BinConfig,
                ConfigError,
            >(e),
    {
        let c = BinConfig { db_min, db_max, bin_count };
        match c.check() {
            Ok(()) => Ok(c),
            Err(e) => Err(e),
        }
    }

    /// Checks the rules of a configuration.
    pub fn check(&self) -> (r: Result<(), ConfigError>)
        ensures
            config_error(*self) is None ==> r is Ok,
            config_error(*self) matches Some(e) ==> r == Err::<(), ConfigError>(e),
    {
        if !self.db_min.is_finite() || !self.db_max.is_finite() {
            Err(ConfigError::NonFiniteBound)
        } else if self.db_max.rank() <= self.db_min.rank() {
            Err(ConfigError::EmptyRange)
        } else if self.bin_count < 3 {
            Err(ConfigError::TooFewBins)
        } else {
            Ok(())
        }
    }

    /// The number of edges a table for this configuration holds: one fewer than the bins.
    pub fn edge_count(&self) -> (r: usize)
        requires
            self.bin_count >= 1,
        ensures
            r == self.bin_count - 1,
    {
        self.bin_count - 1
    }
}

/// An ordered table of linear-amplitude edges, fixed once built.
pub struct EdgeTable {
    edges: Vec<Level>,
}

impl View for EdgeTable {
    type V = Seq<Level>;

    closed spec fn view(&self) -> Seq<Level> {
        self.edges@
    }
}

impl EdgeTable {
    #[verifier::type_invariant]
    spec fn inv(self) -> bool {
        &&& edges_valid(self.edges@)
        &&& 2 <= self.edges@.len() < usize::MAX
    }

    /// Takes the edges computed for `config` (the linear amplitudes of its evenly spaced
    /// decibel points, in order), refusing a configuration that breaks its rules, a count
    /// that is not one fewer than the bins, a NaN edge or edges out of order.
    pub fn from_levels(config: &BinConfig, levels: Vec<Level>) -> (r: Result<
        EdgeTable,
        ConfigError,
    >)
        ensures
            table_error(*config, levels@) is None <==> r is Ok,
            r matches Ok(t) ==> t@ == levels@ && edges_valid(t@) && t@.len() + 1
                == config.bin_count,
            table_error(*config, levels@) matches Some(e) ==> r matches Err(x) && x == e,
    {
        match config.check() {
            Ok(()) => {},
            Err(e) => {
                return Err(e);
            },
        }
        if levels.len() != config.edge_count() {
            return Err(ConfigError::WrongEdgeCount);
        }
        let n: usize = levels.len();
        let mut i: usize = 0;
        while i < n
            invariant
                n == levels@.len(),
                n + 1 == config.bin_count,
                config_error(*config) is None,
                0 <= i <= n,
                forall|j: int| 0 <= j < i ==> !(#[trigger] levels@[j]).is_nan_spec(),
            decreases n - i,
        {
            if levels[i].is_nan() {
                assert(levels@[i as int].is_nan_spec());
                return Err(ConfigError::NanEdge);
            }
            i = i + 1;
        }
        let mut k: usize = 1;
        while k < n
            invariant
                n == levels@.len(),
                n + 1 == config.bin_count,
                config_error(*config) is None,
                1 <= k <= n,
                free_of_nan(levels@),
                forall|a: int, b: int|
                    0 <= a <= b < k ==> #[trigger] levels@[a].rank_spec()
                        <= #[trigger] levels@[b].rank_spec(),
            decreases n - k,
        {
            if levels[k].rank() < levels[k - 1].rank() {
                assert(!(levels@[k - 1].rank_spec() <= levels@[k as int].rank_spec()));
                return Err(ConfigError::UnorderedEdges);
            }
            proof {
                assert forall|a: int, b: int|
                    0 <= a <= b < k + 1 implies #[trigger] levels@[a].rank_spec()
                        <= #[trigger] levels@[b].rank_spec() by {
                    if b == k && a < k {
                        assert(levels@[a].rank_spec() <= levels@[k - 1].rank_spec());
                    }
                }
            }
            k = k + 1;
        }
        Ok(EdgeTable { edges: levels })
    }

    /// The number of edges.
    pub fn len(&self) -> (r: usize)
        ensures
            r == self@.len(),
    {
        self.edges.len()
    }

    /// Edge `k`.
    pub fn edge(&self, k: usize) -> (r: Level)
        requires
            k < self@.len(),
        ensures
            r == self@[k as int],
    {
        self.edges[k]
    }
}

/// Classifies values into the bins that an edge table bounds.
pub struct Binner {
    table: EdgeTable,
}

impl View for Binner {
    type V = Seq<Level>;

    closed spec fn view(&self) -> Seq<Level> {
        self.table@
    }
}

impl Binner {
    /// A binner over `table`.
    pub fn new(table: EdgeTable) -> (r: Binner)
        ensures
            r@ == table@,
    {
        Binner { table }
    }

    /// The edges that bound the bins.
    pub fn table(&self) -> (r: &EdgeTable)
        ensures
            r@ == self@,
    {
        &self.table
    }

    /// The number of bins: one more than the edges.
    pub fn bin_count(&self) -> (r: usize)
        ensures
            r == self@.len() + 1,
    {
        proof {
            use_type_invariant(&self.table);
        }
        self.table.edges.len() + 1
    }

    /// The bin of `value`: the number of edges at or below it. Every value but NaN has a bin
    /// in `0 .. bin_count`; NaN is refused.
    pub fn classify(&self, value: Level) -> (r: Result<usize, ClassifyError>)
        ensures
            value.is_nan_spec() ==> r == Err::<usize, ClassifyError>(ClassifyError::NotANumber),
            !value.is_nan_spec() ==> r == Ok::<usize, ClassifyError>(
                count_at_most(self@, value.rank_spec()) as usize,
            ),
            r matches Ok(b) ==> b < self@.len() + 1,
            edges_valid(self@),
    {
        proof {
            use_type_invariant(&self.table);
            lemma_count_at_most_bounded(self@, value.rank_spec());
        }
        if value.is_nan() {
            return Err(ClassifyError::NotANumber);
        }
        Ok(find_bin(&self.table.edges, value))
    }
}

} // verus!
