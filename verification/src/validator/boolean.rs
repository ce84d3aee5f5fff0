//! Boolean operations extension rules: what a boolean shape may reference.
use crate::error::{self, Error, Kind};
use crate::ids;
use crate::model::{BooleanRef, BooleanShape, Model, Object, ObjectType};
use crate::validator::structure::{object_ids, sorted_object_ids};
use vstd::prelude::*;

verus! {

/// The index of the last of the first `n` objects with id `id`.
pub open spec fn last_with_id(objs: Seq<Object>, id: usize, n: int) -> Option<int>
    decreases n,
{
    if n <= 0 {
        None
    } else if objs[n - 1].id == id {
        Some(n - 1)
    } else {
        last_with_id(objs, id, n - 1)
    }
}

/// The index of the last object with id `id`: the object that an id names
/// where several share it.
pub open spec fn named_object(m: Model, id: usize) -> Option<int> {
    last_with_id(m.resources.objects@, id, m.resources.objects@.len() as int)
}

pub proof fn lemma_last_with_id(objs: Seq<Object>, id: usize, n: int)
    requires
        0 <= n <= objs.len(),
    ensures
        last_with_id(objs, id, n) matches Some(b) ==> 0 <= b < n && objs[b].id == id,
        last_with_id(objs, id, n) is None ==> forall|j: int| 0 <= j < n ==> objs[j].id != id,
    decreases n,
{
    if n > 0 && objs[n - 1].id != id {
        lemma_last_with_id(objs, id, n - 1);
    }
}

/// Whether the object defines a shape rather than only an assembly of components.
pub open spec fn defines_shape(o: Object) -> bool {
    o.mesh is Some || o.boolean_shape is Some || o.has_extension_shapes || o.components@.len() == 0
}

/// The base object of the boolean shape of object `i` exists, is defined
/// before it, is a model object, and defines a shape; unless it is external.
pub open spec fn base_finding(m: Model, i: int, o: Object, bs: BooleanShape) -> error::Finding {
    if bs.path is Some {
        None
    } else {
        match named_object(m, bs.objectid) {
            None => error::found_ids(
                Kind::BooleanBaseUnknown { object: o.id, base: bs.objectid },
                ids::ascending_ids(object_ids(m)),
            ),
            Some(b) => {
                let base = m.resources.objects@[b];
                if b >= i {
                    error::found(Kind::BooleanBaseForward { object: o.id, base: bs.objectid })
                } else if base.object_type != ObjectType::Model {
                    error::found(
                        Kind::BooleanBaseNotModel {
                            object: o.id,
                            base: bs.objectid,
                            object_type: base.object_type,
                        },
                    )
                } else if !defines_shape(base) {
                    error::found(Kind::BooleanBaseNoShape { object: o.id, base: bs.objectid })
                } else {
                    None
                }
            },
        }
    }
}

/// An operand of the boolean shape of object `i` exists, is defined before
/// it, and is a plain triangle mesh model object; unless it is external.
pub open spec fn operand_finding(m: Model, i: int, o: Object, r: BooleanRef) -> error::Finding {
    if r.path is Some {
        None
    } else {
        match named_object(m, r.objectid) {
            None => error::found_ids(
                Kind::BooleanOperandUnknown { object: o.id, operand: r.objectid },
                ids::ascending_ids(object_ids(m)),
            ),
            Some(b) => {
                let op = m.resources.objects@[b];
                if b >= i {
                    error::found(Kind::BooleanOperandForward { object: o.id, operand: r.objectid })
                } else if op.object_type != ObjectType::Model {
                    error::found(
                        Kind::BooleanOperandNotModel {
                            object: o.id,
                            operand: r.objectid,
                            object_type: op.object_type,
                        },
                    )
                } else if op.mesh is None {
                    error::found(Kind::BooleanOperandNotMesh { object: o.id, operand: r.objectid })
                } else if op.boolean_shape is Some {
                    error::found(Kind::BooleanOperandHasBoolean { object: o.id, operand: r.objectid })
                } else if op.components@.len() > 0 {
                    error::found(
                        Kind::BooleanOperandHasComponents { object: o.id, operand: r.objectid },
                    )
                } else if op.has_extension_shapes {
                    error::found(
                        Kind::BooleanOperandExtensionShapes { object: o.id, operand: r.objectid },
                    )
                } else {
                    None
                }
            },
        }
    }
}

pub open spec fn operand_check(m: Model, i: int, o: Object, bs: BooleanShape) -> spec_fn(int) -> error::Finding {
    |k: int| operand_finding(m, i, o, bs.operands@[k])
}

/// Object `i`, where it has a boolean shape: a model object with neither
/// components nor mesh, with operands, whose base and operands are valid.
pub open spec fn boolean_object_finding(m: Model, i: int) -> error::Finding {
    let o = m.resources.objects@[i];
    match o.boolean_shape {
        None => None,
        Some(bs) => if o.object_type != ObjectType::Model {
            error::found(Kind::BooleanObjectNotModel { object: o.id, object_type: o.object_type })
        } else if o.components@.len() > 0 {
            error::found(Kind::BooleanWithComponents { object: o.id })
        } else if o.mesh is Some {
            error::found(Kind::BooleanWithMesh { object: o.id })
        } else if bs.operands@.len() == 0 {
            error::found(Kind::BooleanNoOperands { object: o.id })
        } else {
            error::either(
                base_finding(m, i, o, bs),
                error::first(bs.operands@.len() as int, operand_check(m, i, o, bs)),
            )
        },
    }
}

pub open spec fn boolean_object_check(m: Model) -> spec_fn(int) -> error::Finding {
    |i: int| boolean_object_finding(m, i)
}

pub open spec fn boolean_operations_finding(m: Model) -> error::Finding {
    error::first(m.resources.objects@.len() as int, boolean_object_check(m))
}

/// The index of the last object with id `id`.
fn find_named_object(m: &Model, id: usize) -> (r: Option<usize>)
    ensures
        match r {
            Some(b) => named_object(*m, id) == Some(b as int) && b < m.resources.objects@.len(),
            None => named_object(*m, id) is None,
        },
{
    let objs = &m.resources.objects;
    let mut n: usize = objs.len();
    while n > 0
        invariant
            n <= objs@.len(),
            objs@ == m.resources.objects@,
            named_object(*m, id) == last_with_id(objs@, id, n as int),
        decreases n,
    {
        if objs[n - 1].id == id {
            return Some(n - 1);
        }
        n -= 1;
    }
    None
}

fn check_base(m: &Model, i: usize, o: &Object, bs: &BooleanShape) -> (r: Result<(), Error>)
    ensures
        error::reports(r, base_finding(*m, i as int, *o, *bs)),
{
    if bs.path.is_some() {
        return Ok(());
    }
    match find_named_object(m, bs.objectid) {
        None => {
            let available = sorted_object_ids(m);
            error::fail_ids(Kind::BooleanBaseUnknown { object: o.id, base: bs.objectid }, available)
        },
        Some(b) => {
            let base = &m.resources.objects[b];
            if b >= i {
                return error::fail(Kind::BooleanBaseForward { object: o.id, base: bs.objectid });
            }
            if base.object_type != ObjectType::Model {
                return error::fail(
                    Kind::BooleanBaseNotModel {
                        object: o.id,
                        base: bs.objectid,
                        object_type: base.object_type,
                    },
                );
            }
            let has_shape = base.mesh.is_some() || base.boolean_shape.is_some()
                || base.has_extension_shapes || base.components.len() == 0;
            if !has_shape {
                return error::fail(Kind::BooleanBaseNoShape { object: o.id, base: bs.objectid });
            }
            Ok(())
        },
    }
}

fn check_operand(m: &Model, i: usize, o: &Object, r: &BooleanRef) -> (res: Result<(), Error>)
    ensures
        error::reports(res, operand_finding(*m, i as int, *o, *r)),
{
    if r.path.is_some() {
        return Ok(());
    }
    match find_named_object(m, r.objectid) {
        None => {
            let available = sorted_object_ids(m);
            error::fail_ids(
                Kind::BooleanOperandUnknown { object: o.id, operand: r.objectid },
                available,
            )
        },
        Some(b) => {
            let op = &m.resources.objects[b];
            if b >= i {
                return error::fail(Kind::BooleanOperandForward { object: o.id, operand: r.objectid });
            }
            if op.object_type != ObjectType::Model {
                return error::fail(
                    Kind::BooleanOperandNotModel {
                        object: o.id,
                        operand: r.objectid,
                        object_type: op.object_type,
                    },
                );
            }
            if op.mesh.is_none() {
                return error::fail(Kind::BooleanOperandNotMesh { object: o.id, operand: r.objectid });
            }
            if op.boolean_shape.is_some() {
                return error::fail(
                    Kind::BooleanOperandHasBoolean { object: o.id, operand: r.objectid },
                );
            }
            if op.components.len() > 0 {
                return error::fail(
                    Kind::BooleanOperandHasComponents { object: o.id, operand: r.objectid },
                );
            }
            if op.has_extension_shapes {
                return error::fail(
                    Kind::BooleanOperandExtensionShapes { object: o.id, operand: r.objectid },
                );
            }
            Ok(())
        },
    }
}

fn check_boolean_object(m: &Model, i: usize) -> (r: Result<(), Error>)
    requires
        i < m.resources.objects@.len(),
    ensures
        error::reports(r, boolean_object_finding(*m, i as int)),
{
    let o = &m.resources.objects[i];
    match &o.boolean_shape {
        None => Ok(()),
        Some(bs) => {
            if o.object_type != ObjectType::Model {
                return error::fail(
                    Kind::BooleanObjectNotModel { object: o.id, object_type: o.object_type },
                );
            }
            if o.components.len() > 0 {
                return error::fail(Kind::BooleanWithComponents { object: o.id });
            }
            if o.mesh.is_some() {
                return error::fail(Kind::BooleanWithMesh { object: o.id });
            }
            if bs.operands.len() == 0 {
                return error::fail(Kind::BooleanNoOperands { object: o.id });
            }
            let r = check_base(m, i, o, bs);
            if r.is_err() {
                return r;
            }
            let ops = &bs.operands;
            let ghost n = ops@.len() as int;
            let mut k: usize = 0;
            while k < ops.len()
                invariant
                    k <= ops@.len(),
                    n == ops@.len(),
                    ops@ == bs.operands@,
                    i < m.resources.objects@.len(),
                    *o == m.resources.objects@[i as int],
                    o.boolean_shape == Some(*bs),
                    o.object_type == ObjectType::Model,
                    o.components@.len() == 0,
                    o.mesh is None,
                    bs.operands@.len() > 0,
                    base_finding(*m, i as int, *o, *bs) is None,
                    error::first(n, operand_check(*m, i as int, *o, *bs)) == error::first_from(
                        n,
                        operand_check(*m, i as int, *o, *bs),
                        k as int,
                    ),
                decreases ops@.len() - k,
            {
                let r = check_operand(m, i, o, &ops[k]);
                if r.is_err() {
                    return r;
                }
                k += 1;
            }
            Ok(())
        },
    }
}

/// Checks every boolean shape and what it references.
pub fn validate_boolean_operations(model: &Model) -> (r: Result<(), Error>)
    ensures
        error::reports(r, boolean_operations_finding(*model)),
{
    let ghost n = model.resources.objects@.len() as int;
    let mut i: usize = 0;
    while i < model.resources.objects.len()
        invariant
            i <= n,
            n == model.resources.objects@.len(),
            error::first(n, boolean_object_check(*model)) == error::first_from(
                n,
                boolean_object_check(*model),
                i as int,
            ),
        decreases n - i,
    {
        let r = check_boolean_object(model, i);
        if r.is_err() {
            return r;
        }
        i += 1;
    }
    Ok(())
}

} // verus!
