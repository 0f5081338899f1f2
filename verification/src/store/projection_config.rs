//! Configuration of a projection consumer.
use vstd::prelude::*;

verus! {

/// The batch size of catch-up reads unless set otherwise.
pub const DEFAULT_BATCH_SIZE: usize = 100;

/// Configuration for a projection consumer: the projection's name, the base
/// directory of projection databases, its schema definition and the batch
/// size for processing.
#[derive(Debug, Clone)]
pub struct ProjectionConsumerConfig<S> {
    pub name: String,
    pub db_dir: String,
    pub schema: S,
    pub batch_size: usize,
}

impl<S> ProjectionConsumerConfig<S> {
    /// A consumer config with the default batch size.
    pub fn new(name: String, db_dir: String, schema: S) -> (r: Self)
        ensures
            r.name == name,
            r.db_dir == db_dir,
            r.schema == schema,
            r.batch_size == DEFAULT_BATCH_SIZE,
    {
        ProjectionConsumerConfig { name, db_dir, schema, batch_size: DEFAULT_BATCH_SIZE }
    }

    /// The config with the batch size set.
    pub fn with_batch_size(self, size: usize) -> (r: Self)
        ensures
            r.name == self.name,
            r.db_dir == self.db_dir,
            r.schema == self.schema,
            r.batch_size == size,
    {
        let mut c = self;
        c.batch_size = size;
        c
    }
}

} // verus!
