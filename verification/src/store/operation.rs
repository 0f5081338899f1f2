//! Projection operations handed back by the JavaScript side.
//!
//! All operations are tenant-scoped: every operation of a batch carries the
//! batch's tenant id.
use vstd::prelude::*;
use crate::text::str_eq;

verus! {

#[verifier::external_type_specification]
#[verifier::external_body]
pub struct ExJsonValue(serde_json::Value);

/// Operation type for projection updates.
#[derive(Debug, Clone, Copy, PartialEq, Eq, Structural)]
pub enum OpType {
    Upsert,
    Delete,
}

/// An operation as the JavaScript side sends it.
#[derive(Debug, Clone)]
pub struct ProjectionOpNapi {
    /// Operation type: "upsert" or "delete".
    pub op_type: String,
    /// Primary key value.
    pub key: String,
    /// Row values for an upsert, as JSON text.
    pub value: Option<String>,
}

/// A batch of operations as the JavaScript side sends it.
#[derive(Debug, Clone)]
pub struct BatchResultNapi {
    pub projection_name: String,
    /// Tenant id for all operations in this batch.
    pub tenant_id: String,
    pub operations: Vec<ProjectionOpNapi>,
    /// Last global position processed (the checkpoint).
    pub last_global_pos: i64,
}

/// A single projection operation, scoped to a tenant.
#[derive(Debug, Clone)]
pub struct ProjectionOp {
    pub op_type: OpType,
    /// Tenant id for isolation.
    pub tenant_id: String,
    /// User-defined primary key.
    pub key: String,
    pub value: Option<serde_json::Value>,
}

/// The operations of a batch, to be applied together.
#[derive(Debug)]
pub struct BatchResult {
    pub projection_name: String,
    /// Tenant id shared by all operations of the batch.
    pub tenant_id: String,
    pub operations: Vec<ProjectionOp>,
    pub last_global_pos: i64,
}

/// `delete` names a delete; any other text an upsert.
pub open spec fn spec_op_type(text: Seq<char>) -> OpType {
    if text == "delete"@ {
        OpType::Delete
    } else {
        OpType::Upsert
    }
}

/// What an operation becomes under a tenant: its type read from its text, its
/// key kept, the tenant id set, a value present only where JSON text was sent.
pub open spec fn converts_op(napi: ProjectionOpNapi, tenant_id: Seq<char>, op: ProjectionOp) -> bool {
    &&& op.op_type == spec_op_type(napi.op_type@)
    &&& op.tenant_id@ == tenant_id
    &&& op.key@ == napi.key@
    &&& (napi.value is None ==> op.value is None)
    &&& (napi.value matches Some(t) ==> (op.value is Some <==> spec_json_parses(t@)))
}

/// Whether a text is one JSON value (with surrounding whitespace), as
/// `serde_json::from_str::<serde_json::Value>` accepts it.
pub uninterp spec fn spec_json_parses(text: Seq<char>) -> bool;

/// Parses JSON text with `serde_json::from_str` into a `serde_json::Value`,
/// `None` where the text is not JSON; which texts parse depends on the text
/// alone. Which value a text parses to is left unsaid: the value is opaque
/// here.
#[verifier::external_body]
fn parse_json_value(text: &str) -> (r: Option<serde_json::Value>)
    ensures
        r is Some <==> spec_json_parses(text@),
{
    serde_json::from_str(text).ok()
}

/// Reads the operation type from its text.
pub fn op_type_from_str(text: &str) -> (r: OpType)
    ensures
        r == spec_op_type(text@),
{
    if str_eq(text, "delete") {
        OpType::Delete
    } else {
        OpType::Upsert
    }
}

fn clone_op_napi(op: &ProjectionOpNapi) -> (r: ProjectionOpNapi)
    ensures
        r.op_type@ == op.op_type@,
        r.key@ == op.key@,
        match op.value {
            Some(v) => r.value matches Some(w) && w@ == v@,
            None => r.value is None,
        },
{
    let value = match &op.value {
        Some(s) => Some(s.clone()),
        None => None,
    };
    ProjectionOpNapi { op_type: op.op_type.clone(), key: op.key.clone(), value }
}

impl ProjectionOp {
    /// Creates an operation from what the JavaScript side sent, under the
    /// given tenant id.
    pub fn from_napi_with_tenant(napi: ProjectionOpNapi, tenant_id: String) -> (r: Self)
        ensures
            converts_op(napi, tenant_id@, r),
    {
        let op_type = op_type_from_str(napi.op_type.as_str());
        let value = match &napi.value {
            Some(s) => parse_json_value(s.as_str()),
            None => None,
        };
        ProjectionOp { op_type, tenant_id, key: napi.key, value }
    }
}

impl BatchResult {
    /// Creates a batch from what the JavaScript side sent; every operation
    /// takes the batch's tenant id.
    pub fn from_napi(napi: BatchResultNapi) -> (r: Self)
        ensures
            r.projection_name@ == napi.projection_name@,
            r.tenant_id@ == napi.tenant_id@,
            r.last_global_pos == napi.last_global_pos,
            r.operations@.len() == napi.operations@.len(),
            forall|k: int|
                0 <= k < r.operations@.len() ==> converts_op(
                    napi.operations@[k],
                    napi.tenant_id@,
                    #[trigger] r.operations@[k],
                ),
    {
        let tenant_id = napi.tenant_id;
        let mut operations: Vec<ProjectionOp> = Vec::new();
        let mut k: usize = 0;
        while k < napi.operations.len()
            invariant
                k <= napi.operations@.len(),
                operations@.len() == k,
                forall|j: int|
                    0 <= j < k ==> converts_op(napi.operations@[j], tenant_id@, #[trigger] operations@[j]),
            decreases napi.operations@.len() - k,
        {
            let op = clone_op_napi(&napi.operations[k]);
            let t = tenant_id.clone();
            let converted = ProjectionOp::from_napi_with_tenant(op, t);
            operations.push(converted);
            k = k + 1;
        }
        BatchResult {
            projection_name: napi.projection_name,
            tenant_id,
            operations,
            last_global_pos: napi.last_global_pos,
        }
    }
}

} // verus!
