//! A value of one of two types, marshalled as whichever side it holds.

use vstd::prelude::*;

use crate::lua_api::{ExportQueue, Exportable, ImportQueue, Importable, LuaError, LuaResult,
    LuaValue};

verus! {

/// One of two values. At the host boundary it is encoded as whichever side
/// it holds; decoding tries the first side, then the second.
#[derive(Debug, Clone, Copy, PartialEq, Eq)]
pub enum Either<First, Second> {
    First(First),
    Second(Second),
}

impl<L: Exportable, R: Exportable> Exportable for Either<L, R> {
    open spec fn exported(&self) -> Seq<LuaValue> {
        match self {
            Either::First(l) => l.exported(),
            Either::Second(r) => r.exported(),
        }
    }

    fn export(&self, out: &mut ExportQueue) {
        match self {
            Either::First(l) => l.export(out),
            Either::Second(r) => r.export(out),
        }
    }
}

impl<L: Importable, R: Importable> Importable for Either<L, R> {
    open spec fn can_import(src: Seq<LuaValue>) -> bool {
        L::can_import(src) || R::can_import(L::import_rest(src))
    }

    open spec fn import_ok(src: Seq<LuaValue>) -> Either<L, R> {
        if L::can_import(src) {
            Either::First(L::import_ok(src))
        } else {
            Either::Second(R::import_ok(L::import_rest(src)))
        }
    }

    open spec fn import_rest(src: Seq<LuaValue>) -> Seq<LuaValue> {
        if L::can_import(src) {
            L::import_rest(src)
        } else {
            R::import_rest(L::import_rest(src))
        }
    }

    fn import(src: &mut ImportQueue) -> (r: LuaResult<Either<L, R>>) {
        match L::import(src) {
            Ok(v) => Ok(Either::First(v)),
            Err(_) => match R::import(src) {
                Ok(v) => Ok(Either::Second(v)),
                Err(_) => Err(LuaError::from_str("neither of the value matches")),
            },
        }
    }
}

} // verus!
