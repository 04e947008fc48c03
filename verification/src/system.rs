//! The core's own response shapes: the error, usage-hint and permission
//! replies every module relies on, filed under the `system` module.

use vstd::prelude::*;

use crate::response::Response;
use crate::templates::parsed::BorrowedEnv;

verus! {

/// `system`
pub open spec fn lit_system() -> Seq<u8> {
    seq![115u8, 121u8, 115u8, 116u8, 101u8, 109u8]
}

/// Writes `system` as bytes.
pub fn bytes_system() -> (r: Vec<u8>)
    ensures
        r@ == lit_system(),
{
    let mut v: Vec<u8> = Vec::new();
    v.push(115);
    v.push(121);
    v.push(115);
    v.push(116);
    v.push(101);
    v.push(109);
    proof {
        assert(v@ =~= lit_system());
    }
    v
}

/// `command_error`
pub open spec fn lit_command_error() -> Seq<u8> {
    seq![99u8, 111u8, 109u8, 109u8, 97u8, 110u8, 100u8, 95u8, 101u8, 114u8, 114u8, 111u8, 114u8]
}

/// Writes `command_error` as bytes.
pub fn bytes_command_error() -> (r: Vec<u8>)
    ensures
        r@ == lit_command_error(),
{
    let mut v: Vec<u8> = Vec::new();
    v.push(99);
    v.push(111);
    v.push(109);
    v.push(109);
    v.push(97);
    v.push(110);
    v.push(100);
    v.push(95);
    v.push(101);
    v.push(114);
    v.push(114);
    v.push(111);
    v.push(114);
    proof {
        assert(v@ =~= lit_command_error());
    }
    v
}

/// `invalid_usage`
pub open spec fn lit_invalid_usage() -> Seq<u8> {
    seq![105u8, 110u8, 118u8, 97u8, 108u8, 105u8, 100u8, 95u8, 117u8, 115u8, 97u8, 103u8, 101u8]
}

/// Writes `invalid_usage` as bytes.
pub fn bytes_invalid_usage() -> (r: Vec<u8>)
    ensures
        r@ == lit_invalid_usage(),
{
    let mut v: Vec<u8> = Vec::new();
    v.push(105);
    v.push(110);
    v.push(118);
    v.push(97);
    v.push(108);
    v.push(105);
    v.push(100);
    v.push(95);
    v.push(117);
    v.push(115);
    v.push(97);
    v.push(103);
    v.push(101);
    proof {
        assert(v@ =~= lit_invalid_usage());
    }
    v
}

/// `requires_permission`
pub open spec fn lit_requires_permission() -> Seq<u8> {
    seq![114u8, 101u8, 113u8, 117u8, 105u8, 114u8, 101u8, 115u8, 95u8, 112u8, 101u8, 114u8, 109u8, 105u8, 115u8, 115u8, 105u8, 111u8, 110u8]
}

/// Writes `requires_permission` as bytes.
pub fn bytes_requires_permission() -> (r: Vec<u8>)
    ensures
        r@ == lit_requires_permission(),
{
    let mut v: Vec<u8> = Vec::new();
    v.push(114);
    v.push(101);
    v.push(113);
    v.push(117);
    v.push(105);
    v.push(114);
    v.push(101);
    v.push(115);
    v.push(95);
    v.push(112);
    v.push(101);
    v.push(114);
    v.push(109);
    v.push(105);
    v.push(115);
    v.push(115);
    v.push(105);
    v.push(111);
    v.push(110);
    proof {
        assert(v@ =~= lit_requires_permission());
    }
    v
}

/// `requires_admin`
pub open spec fn lit_requires_admin() -> Seq<u8> {
    seq![114u8, 101u8, 113u8, 117u8, 105u8, 114u8, 101u8, 115u8, 95u8, 97u8, 100u8, 109u8, 105u8, 110u8]
}

/// Writes `requires_admin` as bytes.
pub fn bytes_requires_admin() -> (r: Vec<u8>)
    ensures
        r@ == lit_requires_admin(),
{
    let mut v: Vec<u8> = Vec::new();
    v.push(114);
    v.push(101);
    v.push(113);
    v.push(117);
    v.push(105);
    v.push(114);
    v.push(101);
    v.push(115);
    v.push(95);
    v.push(97);
    v.push(100);
    v.push(109);
    v.push(105);
    v.push(110);
    proof {
        assert(v@ =~= lit_requires_admin());
    }
    v
}

/// `error`
pub open spec fn lit_error_key() -> Seq<u8> {
    seq![101u8, 114u8, 114u8, 111u8, 114u8]
}

/// Writes `error` as bytes.
pub fn bytes_error_key() -> (r: Vec<u8>)
    ensures
        r@ == lit_error_key(),
{
    let mut v: Vec<u8> = Vec::new();
    v.push(101);
    v.push(114);
    v.push(114);
    v.push(111);
    v.push(114);
    proof {
        assert(v@ =~= lit_error_key());
    }
    v
}

/// `usage`
pub open spec fn lit_usage_key() -> Seq<u8> {
    seq![117u8, 115u8, 97u8, 103u8, 101u8]
}

/// Writes `usage` as bytes.
pub fn bytes_usage_key() -> (r: Vec<u8>)
    ensures
        r@ == lit_usage_key(),
{
    let mut v: Vec<u8> = Vec::new();
    v.push(117);
    v.push(115);
    v.push(97);
    v.push(103);
    v.push(101);
    proof {
        assert(v@ =~= lit_usage_key());
    }
    v
}

/// The problem reply carrying a handler's error text.
pub fn error_response(error: Vec<u8>) -> (r: Response)
    ensures
        r.module@ == lit_system(),
        r.key@ == lit_command_error(),
        r.env@ == Map::<Seq<u8>, Seq<u8>>::empty().insert(lit_error_key(), error@),
{
    Response {
        module: bytes_system(),
        key: bytes_command_error(),
        env: BorrowedEnv::new_empty().insert(bytes_error_key(), error),
    }
}

/// The problem reply carrying a command's usage line.
pub fn invalid_usage_response(usage: Vec<u8>) -> (r: Response)
    ensures
        r.module@ == lit_system(),
        r.key@ == lit_invalid_usage(),
        r.env@ == Map::<Seq<u8>, Seq<u8>>::empty().insert(lit_usage_key(), usage@),
{
    Response {
        module: bytes_system(),
        key: bytes_invalid_usage(),
        env: BorrowedEnv::new_empty().insert(bytes_usage_key(), usage),
    }
}

/// The reply sent when a caller lacks the needed permission.
pub fn requires_permission_response() -> (r: Response)
    ensures
        r.module@ == lit_system(),
        r.key@ == lit_requires_permission(),
        r.env@ == Map::<Seq<u8>, Seq<u8>>::empty(),
{
    Response {
        module: bytes_system(),
        key: bytes_requires_permission(),
        env: BorrowedEnv::new_empty(),
    }
}

/// The reply sent when only the broadcaster may ask.
pub fn requires_admin_response() -> (r: Response)
    ensures
        r.module@ == lit_system(),
        r.key@ == lit_requires_admin(),
        r.env@ == Map::<Seq<u8>, Seq<u8>>::empty(),
{
    Response {
        module: bytes_system(),
        key: bytes_requires_admin(),
        env: BorrowedEnv::new_empty(),
    }
}

} // verus!
