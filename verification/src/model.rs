//! The interface model and the service compiler.
//!
//! An interface model is the normalized, ordered description of the
//! operations a service exposes, together with the declaring type's generic
//! parameter names and the endpoint name. Ordinals are assigned by
//! declaration order, densely from 1; ordinal 0 is reserved for the built-in
//! shutdown operation and is never assigned. The compiler turns a model into
//! the two artifacts that must agree bit for bit: the server's dispatch
//! table and the client proxy's call table, both carrying the same ordinal
//! assignment.

use vstd::prelude::*;

use crate::error::Error;

verus! {

/// One method signature handed to the model by the front end: a name, the
/// ordered parameter slots (each an opaque, serializable type label) and the
/// return type label, `None` meaning unit.
#[derive(Debug)]
pub struct MethodSig {
    /// The method name.
    pub name: String,
    /// The parameter type labels, in positional order.
    pub params: Vec<String>,
    /// The return type label; `None` denotes unit.
    pub ret: Option<String>,
}

/// One exposed operation: a method signature plus its wire ordinal.
#[derive(Debug)]
pub struct Operation {
    /// The method name.
    pub name: String,
    /// The wire ordinal; assigned by declaration order, never 0.
    pub ordinal: u32,
    /// The parameter type labels, in positional order.
    pub params: Vec<String>,
    /// The return type label; `None` denotes unit.
    pub ret: Option<String>,
}

/// The ordered collection of operations of one service interface, the
/// declaring type's generic parameter names, and the endpoint name.
#[derive(Debug)]
pub struct InterfaceModel {
    /// The endpoint this interface is served on.
    pub endpoint_name: String,
    /// The declaring type's generic parameter names; they carry type
    /// identity only and are threaded through both generated artifacts.
    pub type_params: Vec<String>,
    /// The operations, in declaration order.
    pub ops: Vec<Operation>,
}

impl InterfaceModel {
    /// The ordinal invariant: operation `i` carries ordinal `i + 1`, so
    /// ordinals are unique, contiguous from 1, and disjoint from the
    /// reserved 0.
    pub open spec fn ordinals_assigned(&self) -> bool {
        forall|i: int| 0 <= i < self.ops@.len() ==> (#[trigger] self.ops@[i]).ordinal == i + 1
    }

    /// Build a model from an ordered list of method signatures, assigning
    /// each operation the next ordinal in declaration order.
    pub fn new(endpoint_name: String, type_params: Vec<String>, methods: Vec<MethodSig>) -> (r:
        Self)
        requires
            methods@.len() <= u32::MAX,
        ensures
            r.endpoint_name == endpoint_name,
            r.type_params == type_params,
            r.ops@.len() == methods@.len(),
            r.ordinals_assigned(),
            forall|i: int|
                0 <= i < methods@.len() ==> {
                    &&& (#[trigger] r.ops@[i]).name == methods@[i].name
                    &&& r.ops@[i].params == methods@[i].params
                    &&& r.ops@[i].ret == methods@[i].ret
                },
    {
        let ghost orig = methods@;
        let mut rest = methods;
        let mut ops: Vec<Operation> = Vec::new();
        while rest.len() > 0
            invariant
                ops@.len() + rest@.len() == orig.len(),
                orig.len() <= u32::MAX,
                rest@ == orig.subrange(ops@.len() as int, orig.len() as int),
                forall|i: int|
                    0 <= i < ops@.len() ==> {
                        &&& (#[trigger] ops@[i]).name == orig[i].name
                        &&& ops@[i].params == orig[i].params
                        &&& ops@[i].ret == orig[i].ret
                        &&& ops@[i].ordinal == i + 1
                    },
            decreases rest@.len(),
        {
            let m = rest.remove(0);
            assert(m == orig[ops@.len() as int]);
            let ordinal = (ops.len() + 1) as u32;
            ops.push(Operation { name: m.name, ordinal, params: m.params, ret: m.ret });
            proof {
                assert(rest@ =~= orig.subrange(ops@.len() as int, orig.len() as int));
            }
        }
        InterfaceModel { endpoint_name, type_params, ops }
    }
}

/// Ordinal assignment is a total, contiguous, order-preserving bijection
/// from the operations onto `{1..n}`, disjoint from the reserved 0:
/// every operation's ordinal lies in `{1..n}`, the assignment is strictly
/// increasing in declaration order, and every value of `{1..n}` is taken,
/// by the operation at position `k - 1`.
pub proof fn lemma_ordinal_assignment(m: InterfaceModel)
    requires
        m.ordinals_assigned(),
    ensures
        forall|i: int|
            0 <= i < m.ops@.len() ==> 1 <= (#[trigger] m.ops@[i]).ordinal <= m.ops@.len(),
        forall|i: int| 0 <= i < m.ops@.len() ==> (#[trigger] m.ops@[i]).ordinal != 0,
        forall|i: int, j: int|
            0 <= i < j < m.ops@.len() ==> (#[trigger] m.ops@[i]).ordinal < (
            #[trigger] m.ops@[j]).ordinal,
        forall|k: int| 1 <= k <= m.ops@.len() ==> (#[trigger] m.ops@[k - 1]).ordinal == k,
{
}

/// One arm of the server's dispatch table: the wire ordinal, the method it
/// routes to, and how many argument buffers the arm deserializes.
#[derive(Debug)]
pub struct DispatchArm {
    /// The wire ordinal this arm is keyed on.
    pub ordinal: u32,
    /// The method the arm invokes.
    pub method: String,
    /// The number of argument buffers the arm consumes, in positional order.
    pub arg_count: usize,
}

/// The server artifact: the dispatch table for one interface.
#[derive(Debug)]
pub struct ServerPlan {
    /// The endpoint the server binds.
    pub endpoint: String,
    /// The declaring type's generic parameter names, threaded through.
    pub type_params: Vec<String>,
    /// One arm per operation, in declaration order.
    pub arms: Vec<DispatchArm>,
}

/// One generated proxy method: the method name, the wire ordinal it sends,
/// and how many arguments it serializes.
#[derive(Debug)]
pub struct ProxyCall {
    /// The wire ordinal the proxy sends as the request key.
    pub ordinal: u32,
    /// The method the proxy exposes.
    pub method: String,
    /// The number of arguments the proxy serializes, in positional order.
    pub arg_count: usize,
}

/// The client artifact: the proxy call table for one interface.
#[derive(Debug)]
pub struct ClientPlan {
    /// The endpoint the client connects to.
    pub endpoint: String,
    /// The declaring type's generic parameter names, threaded through.
    pub type_params: Vec<String>,
    /// One proxy method per operation, in declaration order.
    pub calls: Vec<ProxyCall>,
}

/// Compile a model into its two artifacts. A malformed model — one whose
/// ordinals are not the dense declaration-order assignment — is rejected
/// here, at generation time, never at run time. The two artifacts returned
/// on success share the model's ordinal assignment position by position.
pub fn compile(m: &InterfaceModel) -> (r: Result<(ServerPlan, ClientPlan), Error>)
    ensures
        r is Ok <==> m.ordinals_assigned(),
        match r {
            Ok(p) => {
                &&& p.0.endpoint@ == m.endpoint_name@
                &&& p.1.endpoint@ == m.endpoint_name@
                &&& p.0.type_params.deep_view() == m.type_params.deep_view()
                &&& p.1.type_params.deep_view() == m.type_params.deep_view()
                &&& p.0.arms@.len() == m.ops@.len()
                &&& p.1.calls@.len() == m.ops@.len()
                &&& forall|i: int|
                    0 <= i < m.ops@.len() ==> {
                        &&& (#[trigger] p.0.arms@[i]).ordinal == m.ops@[i].ordinal
                        &&& p.1.calls@[i].ordinal == m.ops@[i].ordinal
                        &&& p.0.arms@[i].method@ == m.ops@[i].name@
                        &&& p.1.calls@[i].method@ == m.ops@[i].name@
                        &&& p.0.arms@[i].arg_count == m.ops@[i].params@.len()
                        &&& p.1.calls@[i].arg_count == m.ops@[i].params@.len()
                    }
            },
            Err(e) => e matches Error::Server(_),
        },
{
    let n = m.ops.len();
    let mut i: usize = 0;
    let mut arms: Vec<DispatchArm> = Vec::new();
    let mut calls: Vec<ProxyCall> = Vec::new();
    while i < n
        invariant
            n == m.ops@.len(),
            i <= n,
            arms@.len() == i,
            calls@.len() == i,
            forall|k: int|
                0 <= k < i ==> {
                    &&& (#[trigger] arms@[k]).ordinal == m.ops@[k].ordinal
                    &&& calls@[k].ordinal == m.ops@[k].ordinal
                    &&& arms@[k].method@ == m.ops@[k].name@
                    &&& calls@[k].method@ == m.ops@[k].name@
                    &&& arms@[k].arg_count == m.ops@[k].params@.len()
                    &&& calls@[k].arg_count == m.ops@[k].params@.len()
                },
            forall|k: int| 0 <= k < i ==> (#[trigger] m.ops@[k]).ordinal == k + 1,
        decreases n - i,
    {
        let op = &m.ops[i];
        if op.ordinal as u64 != i as u64 + 1 {
            return Err(Error::Server(String::from_str("malformed model: ordinals out of order")));
        }
        let arg_count = op.params.len();
        arms.push(
            DispatchArm { ordinal: op.ordinal, method: op.name.clone(), arg_count },
        );
        calls.push(
            ProxyCall { ordinal: op.ordinal, method: op.name.clone(), arg_count },
        );
        i = i + 1;
    }
    let server = ServerPlan {
        endpoint: m.endpoint_name.clone(),
        type_params: clone_strings(&m.type_params),
        arms,
    };
    let client = ClientPlan {
        endpoint: m.endpoint_name.clone(),
        type_params: clone_strings(&m.type_params),
        calls,
    };
    Ok((server, client))
}

/// Copy a list of strings, preserving its contents.
pub(crate) fn clone_strings(v: &Vec<String>) -> (r: Vec<String>)
    ensures
        r.deep_view() == v.deep_view(),
{
    let mut r: Vec<String> = Vec::new();
    let mut i: usize = 0;
    while i < v.len()
        invariant
            i <= v@.len(),
            r@.len() == i,
            forall|k: int| 0 <= k < i ==> (#[trigger] r@[k])@ == v@[k]@,
        decreases v@.len() - i,
    {
        r.push(v[i].clone());
        i = i + 1;
    }
    proof {
        assert(r.deep_view() =~= v.deep_view());
    }
    r
}

} // verus!
