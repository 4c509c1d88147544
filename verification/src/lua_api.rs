//! The value-marshalling boundary: calls cross to and from the host as flat
//! queues of typed values. Importing decodes values from the incoming queue;
//! exporting appends values to the outgoing one. The host driver moves the
//! queues' contents over its own call mechanism.

use vstd::prelude::*;
use vstd::string::StringExecFns;

use std::collections::VecDeque;

verus! {

/// One value crossing the host boundary.
#[derive(Debug)]
pub enum LuaValue {
    I32(i32),
    I64(i64),
    Str(String),
    Bool(bool),
    Nil,
}

/// The type tag of a boundary value, as the host reports it. `Nothing` stands
/// for "no further value"; the numeric tags the host may announce but whose
/// values this layer never holds keep their places.
#[derive(Clone, Copy, Debug, PartialEq, Eq, Structural)]
pub enum Typed {
    Nothing,
    I32,
    I64,
    String,
    F32,
    F64,
    Type,
    Object,
    Nil,
    Bool,
    Error,
}

impl LuaValue {
    /// The tag of this value.
    pub open spec fn spec_tag(&self) -> Typed {
        match self {
            LuaValue::I32(_) => Typed::I32,
            LuaValue::I64(_) => Typed::I64,
            LuaValue::Str(_) => Typed::String,
            LuaValue::Bool(_) => Typed::Bool,
            LuaValue::Nil => Typed::Nil,
        }
    }

    /// The tag of this value.
    pub fn tag(&self) -> (t: Typed)
        ensures
            t == self.spec_tag(),
    {
        match self {
            LuaValue::I32(_) => Typed::I32,
            LuaValue::I64(_) => Typed::I64,
            LuaValue::Str(_) => Typed::String,
            LuaValue::Bool(_) => Typed::Bool,
            LuaValue::Nil => Typed::Nil,
        }
    }
}

impl Typed {
    /// The tag the host encodes as `t`; unknown numbers read as `Error`.
    pub open spec fn spec_from_i32(t: i32) -> Typed {
        if t == 0 {
            Typed::Nothing
        } else if t == 1 {
            Typed::I32
        } else if t == 2 {
            Typed::I64
        } else if t == 3 {
            Typed::String
        } else if t == 4 {
            Typed::F32
        } else if t == 5 {
            Typed::F64
        } else if t == 6 {
            Typed::Type
        } else if t == 7 {
            Typed::Object
        } else if t == 8 {
            Typed::Nil
        } else if t == 9 {
            Typed::Bool
        } else {
            Typed::Error
        }
    }

    /// Decode the host's numeric type tag.
    pub fn from_i32(t: i32) -> (r: Typed)
        ensures
            r == Typed::spec_from_i32(t),
    {
        match t {
            0 => Typed::Nothing,
            1 => Typed::I32,
            2 => Typed::I64,
            3 => Typed::String,
            4 => Typed::F32,
            5 => Typed::F64,
            6 => Typed::Type,
            7 => Typed::Object,
            8 => Typed::Nil,
            9 => Typed::Bool,
            _ => Typed::Error,
        }
    }

    /// The tag's name, as it appears in error messages.
    pub open spec fn spec_name(self) -> Seq<char> {
        match self {
            Typed::Nothing => "none"@,
            Typed::I32 => "i32"@,
            Typed::I64 => "i64"@,
            Typed::String => "string"@,
            Typed::F32 => "f32"@,
            Typed::F64 => "f64"@,
            Typed::Type => "type"@,
            Typed::Object => "table"@,
            Typed::Nil => "nil"@,
            Typed::Bool => "bool"@,
            Typed::Error => "error type"@,
        }
    }

    /// The tag's name, as it appears in error messages.
    pub fn name(self) -> (s: &'static str)
        ensures
            s@ == self.spec_name(),
    {
        match self {
            Typed::Nothing => "none",
            Typed::I32 => "i32",
            Typed::I64 => "i64",
            Typed::String => "string",
            Typed::F32 => "f32",
            Typed::F64 => "f64",
            Typed::Type => "type",
            Typed::Object => "table",
            Typed::Nil => "nil",
            Typed::Bool => "bool",
            Typed::Error => "error type",
        }
    }
}

/// An error crossing back into the scripting host: a plain message.
#[derive(Debug, Clone)]
pub struct LuaError {
    msg: String,
}

/// The result of an operation at the host boundary.
pub type LuaResult<T> = Result<T, LuaError>;

impl LuaError {
    /// The error's message.
    pub closed spec fn spec_msg(&self) -> Seq<char> {
        self.msg@
    }

    /// An error with a fixed message.
    pub fn from_str(msg: &'static str) -> (e: LuaError)
        ensures
            e.spec_msg() == msg@,
    {
        LuaError { msg: msg.to_owned() }
    }

    /// An error with a built message.
    pub fn from_string(msg: String) -> (e: LuaError)
        ensures
            e.spec_msg() == msg@,
    {
        LuaError { msg }
    }

    /// The error's message.
    pub fn as_str(&self) -> (s: &str)
        ensures
            s@ == self.spec_msg(),
    {
        self.msg.as_str()
    }
}

/// The queue of values the host has handed over for the call in progress.
#[derive(Debug)]
pub struct ImportQueue {
    values: VecDeque<LuaValue>,
}

/// The queue of values to hand back to the host.
#[derive(Debug)]
pub struct ExportQueue {
    values: Vec<LuaValue>,
}

/// The tag of the front of a value sequence; `Nothing` when the sequence is
/// out of values.
pub open spec fn peek_tag(s: Seq<LuaValue>) -> Typed {
    if s.len() == 0 {
        Typed::Nothing
    } else {
        s[0].spec_tag()
    }
}

impl ImportQueue {
    /// The values still to be imported, front first.
    pub closed spec fn contents(&self) -> Seq<LuaValue> {
        self.values@
    }

    /// An empty queue.
    pub fn new() -> (q: ImportQueue)
        ensures
            q.contents() == Seq::<LuaValue>::empty(),
    {
        ImportQueue { values: VecDeque::new() }
    }

    /// Queue one more incoming value; the host driver fills the queue this
    /// way before the call runs.
    pub fn push_value(&mut self, v: LuaValue)
        ensures
            final(self).contents() == old(self).contents().push(v),
    {
        self.values.push_back(v);
    }

    /// The type of the next value to import, `Typed::Nothing` when the queue is
    /// out of values.
    pub fn next_import_type(&self) -> (t: Typed)
        ensures
            t == peek_tag(self.contents()),
    {
        if self.values.len() == 0 {
            Typed::Nothing
        } else {
            self.values[0].tag()
        }
    }

    /// Skip the next incoming value, if any.
    pub fn abort_next_import(&mut self)
        ensures
            old(self).contents().len() == 0 ==> final(self).contents() == old(self).contents(),
            old(self).contents().len() > 0 ==> final(self).contents() == old(
                self,
            ).contents().drop_first(),
    {
        let r = self.values.pop_front();
        proof {
            if old(self).contents().len() > 0 {
                assert(final(self).contents() =~= old(self).contents().drop_first());
            }
        }
    }

    /// Take the next incoming value.
    fn pop(&mut self) -> (r: Option<LuaValue>)
        ensures
            r is Some <==> old(self).contents().len() > 0,
            r matches Some(v) ==> v == old(self).contents()[0] && final(self).contents() == old(
                self,
            ).contents().drop_first(),
            r is None ==> final(self).contents() == old(self).contents(),
    {
        let r = self.values.pop_front();
        proof {
            if old(self).contents().len() > 0 {
                assert(final(self).contents() =~= old(self).contents().drop_first());
            }
        }
        r
    }
}

impl ExportQueue {
    /// The values queued for the host, in the order they were exported.
    pub closed spec fn contents(&self) -> Seq<LuaValue> {
        self.values@
    }

    /// An empty queue.
    pub fn new() -> (q: ExportQueue)
        ensures
            q.contents() == Seq::<LuaValue>::empty(),
    {
        ExportQueue { values: Vec::new() }
    }

    /// Queue one value for the host.
    pub fn push_value(&mut self, v: LuaValue)
        ensures
            final(self).contents() == old(self).contents().push(v),
    {
        self.values.push(v);
    }

    /// Hand the queued values over, emptying the queue; the host driver sends
    /// them on.
    pub fn drain(&mut self) -> (out: Vec<LuaValue>)
        ensures
            out@ == old(self).contents(),
            final(self).contents() == Seq::<LuaValue>::empty(),
    {
        let mut out: Vec<LuaValue> = Vec::new();
        core::mem::swap(&mut out, &mut self.values);
        out
    }
}

/// Check that the next incoming value has the expected type; the error
/// names the expected and the found type.
pub fn assert_type(t: Typed, src: &ImportQueue) -> (r: LuaResult<()>)
    ensures
        r is Ok <==> peek_tag(src.contents()) == t,
        r matches Err(e) ==> e.spec_msg() == "expect "@ + t.spec_name() + ", got "@ + peek_tag(
            src.contents(),
        ).spec_name(),
{
    let next = src.next_import_type();
    if t == next {
        Ok(())
    } else {
        let mut msg = String::new();
        msg.append("expect ");
        msg.append(t.name());
        msg.append(", got ");
        msg.append(next.name());
        proof {
            assert(msg@ =~= "expect "@ + t.spec_name() + ", got "@ + peek_tag(
                src.contents(),
            ).spec_name());
        }
        Err(LuaError::from_string(msg))
    }
}

/// Types whose values can cross to the host. `exported` says exactly which
/// boundary values a value becomes.
pub trait Exportable {
    /// The boundary values this value becomes.
    spec fn exported(&self) -> Seq<LuaValue>;

    /// Append this value's boundary encoding to the outgoing queue.
    fn export(&self, out: &mut ExportQueue)
        ensures
            final(out).contents() == old(out).contents() + self.exported(),
    ;
}

/// Types whose values can be read off the incoming queue. The three spec
/// functions pin the decoder down: on which queues it succeeds, what value it
/// reads, and what is left of the queue either way.
pub trait Importable: Sized {
    /// Whether importing from a queue in this state succeeds.
    spec fn can_import(src: Seq<LuaValue>) -> bool;

    /// The value imported from a queue in this state, when it succeeds.
    spec fn import_ok(src: Seq<LuaValue>) -> Self;

    /// What is left of the queue after the import, succeed or fail.
    spec fn import_rest(src: Seq<LuaValue>) -> Seq<LuaValue>;

    /// Read one value of this type off the incoming queue.
    fn import(src: &mut ImportQueue) -> (r: LuaResult<Self>)
        ensures
            r is Ok <==> Self::can_import(old(src).contents()),
            r matches Ok(v) ==> v == Self::import_ok(old(src).contents()),
            final(src).contents() == Self::import_rest(old(src).contents()),
    ;
}

impl Exportable for i32 {
    open spec fn exported(&self) -> Seq<LuaValue> {
        seq![LuaValue::I32(*self)]
    }

    fn export(&self, out: &mut ExportQueue) {
        out.push_value(LuaValue::I32(*self));
    }
}

impl Importable for i32 {
    open spec fn can_import(src: Seq<LuaValue>) -> bool {
        src.len() > 0 && src[0] is I32
    }

    open spec fn import_ok(src: Seq<LuaValue>) -> i32 {
        src[0]->I32_0
    }

    open spec fn import_rest(src: Seq<LuaValue>) -> Seq<LuaValue> {
        if Self::can_import(src) {
            src.drop_first()
        } else {
            src
        }
    }

    fn import(src: &mut ImportQueue) -> (r: LuaResult<i32>) {
        match assert_type(Typed::I32, src) {
            Err(e) => Err(e),
            Ok(_) => match src.pop() {
                Some(LuaValue::I32(v)) => Ok(v),
                _ => Err(LuaError::from_str("not receiving i32")),
            },
        }
    }
}

impl Exportable for i64 {
    open spec fn exported(&self) -> Seq<LuaValue> {
        seq![LuaValue::I64(*self)]
    }

    fn export(&self, out: &mut ExportQueue) {
        out.push_value(LuaValue::I64(*self));
    }
}

impl Importable for i64 {
    open spec fn can_import(src: Seq<LuaValue>) -> bool {
        src.len() > 0 && src[0] is I64
    }

    open spec fn import_ok(src: Seq<LuaValue>) -> i64 {
        src[0]->I64_0
    }

    open spec fn import_rest(src: Seq<LuaValue>) -> Seq<LuaValue> {
        if Self::can_import(src) {
            src.drop_first()
        } else {
            src
        }
    }

    fn import(src: &mut ImportQueue) -> (r: LuaResult<i64>) {
        match assert_type(Typed::I64, src) {
            Err(e) => Err(e),
            Ok(_) => match src.pop() {
                Some(LuaValue::I64(v)) => Ok(v),
                _ => Err(LuaError::from_str("not receiving i64")),
            },
        }
    }
}

impl Exportable for bool {
    open spec fn exported(&self) -> Seq<LuaValue> {
        seq![LuaValue::Bool(*self)]
    }

    fn export(&self, out: &mut ExportQueue) {
        out.push_value(LuaValue::Bool(*self));
    }
}

impl Importable for bool {
    open spec fn can_import(src: Seq<LuaValue>) -> bool {
        src.len() > 0 && src[0] is Bool
    }

    open spec fn import_ok(src: Seq<LuaValue>) -> bool {
        src[0]->Bool_0
    }

    open spec fn import_rest(src: Seq<LuaValue>) -> Seq<LuaValue> {
        if Self::can_import(src) {
            src.drop_first()
        } else {
            src
        }
    }

    fn import(src: &mut ImportQueue) -> (r: LuaResult<bool>) {
        match assert_type(Typed::Bool, src) {
            Err(e) => Err(e),
            Ok(_) => match src.pop() {
                Some(LuaValue::Bool(v)) => Ok(v),
                _ => Err(LuaError::from_str("not receiving bool")),
            },
        }
    }
}

impl Exportable for String {
    open spec fn exported(&self) -> Seq<LuaValue> {
        seq![LuaValue::Str(*self)]
    }

    fn export(&self, out: &mut ExportQueue) {
        out.push_value(LuaValue::Str(self.clone()));
    }
}

impl Importable for String {
    open spec fn can_import(src: Seq<LuaValue>) -> bool {
        src.len() > 0 && src[0] is Str
    }

    open spec fn import_ok(src: Seq<LuaValue>) -> String {
        src[0]->Str_0
    }

    open spec fn import_rest(src: Seq<LuaValue>) -> Seq<LuaValue> {
        if Self::can_import(src) {
            src.drop_first()
        } else {
            src
        }
    }

    fn import(src: &mut ImportQueue) -> (r: LuaResult<String>) {
        match assert_type(Typed::String, src) {
            Err(e) => Err(e),
            Ok(_) => match src.pop() {
                Some(LuaValue::Str(v)) => Ok(v),
                _ => Err(LuaError::from_str("not receiving string")),
            },
        }
    }
}

impl Exportable for () {
    open spec fn exported(&self) -> Seq<LuaValue> {
        Seq::empty()
    }

    fn export(&self, out: &mut ExportQueue) {
        proof {
            assert(old(out).contents() + self.exported() =~= old(out).contents());
        }
    }
}

impl Importable for () {
    open spec fn can_import(src: Seq<LuaValue>) -> bool {
        true
    }

    open spec fn import_ok(src: Seq<LuaValue>) -> () {
        ()
    }

    open spec fn import_rest(src: Seq<LuaValue>) -> Seq<LuaValue> {
        if peek_tag(src) == Typed::Nil {
            src.drop_first()
        } else {
            src
        }
    }

    fn import(src: &mut ImportQueue) -> (r: LuaResult<()>) {
        if src.next_import_type() == Typed::Nil {
            src.abort_next_import();
        }
        Ok(())
    }
}

/// An explicit `nil` value at the boundary. Unlike `()` or a missing value it
/// exports as a `nil` in its own right.
#[derive(Clone, Copy, Debug, Default, PartialEq, Eq, Structural)]
pub struct Nil;

impl Exportable for Nil {
    open spec fn exported(&self) -> Seq<LuaValue> {
        seq![LuaValue::Nil]
    }

    fn export(&self, out: &mut ExportQueue) {
        out.push_value(LuaValue::Nil);
    }
}

impl Importable for Nil {
    open spec fn can_import(src: Seq<LuaValue>) -> bool {
        true
    }

    open spec fn import_ok(src: Seq<LuaValue>) -> Nil {
        Nil
    }

    open spec fn import_rest(src: Seq<LuaValue>) -> Seq<LuaValue> {
        if peek_tag(src) == Typed::Nil {
            src.drop_first()
        } else {
            src
        }
    }

    fn import(src: &mut ImportQueue) -> (r: LuaResult<Nil>) {
        match <()>::import(src) {
            Ok(_) => Ok(Nil),
            Err(e) => Err(e),
        }
    }
}

impl<T: Exportable> Exportable for Option<T> {
    open spec fn exported(&self) -> Seq<LuaValue> {
        match self {
            Some(v) => v.exported(),
            None => Seq::empty(),
        }
    }

    fn export(&self, out: &mut ExportQueue) {
        match self {
            Some(v) => v.export(out),
            None => {
                proof {
                    assert(old(out).contents() + self.exported() =~= old(out).contents());
                }
            },
        }
    }
}

impl<T: Importable> Importable for Option<T> {
    open spec fn can_import(src: Seq<LuaValue>) -> bool {
        if peek_tag(src) == Typed::Nothing || peek_tag(src) == Typed::Nil {
            true
        } else {
            T::can_import(src)
        }
    }

    open spec fn import_ok(src: Seq<LuaValue>) -> Option<T> {
        if peek_tag(src) == Typed::Nothing || peek_tag(src) == Typed::Nil {
            None
        } else {
            Some(T::import_ok(src))
        }
    }

    open spec fn import_rest(src: Seq<LuaValue>) -> Seq<LuaValue> {
        if peek_tag(src) == Typed::Nothing {
            src
        } else if peek_tag(src) == Typed::Nil {
            src.drop_first()
        } else {
            T::import_rest(src)
        }
    }

    fn import(src: &mut ImportQueue) -> (r: LuaResult<Option<T>>) {
        if src.next_import_type() == Typed::Nothing {
            Ok(None)
        } else if src.next_import_type() == Typed::Nil {
            src.abort_next_import();
            Ok(None)
        } else {
            match T::import(src) {
                Ok(v) => Ok(Some(v)),
                Err(e) => Err(e),
            }
        }
    }
}

/// The boundary values of a row of values, in order.
pub open spec fn exported_all<T: Exportable>(s: Seq<T>) -> Seq<LuaValue>
    decreases s.len(),
{
    if s.len() == 0 {
        Seq::empty()
    } else {
        s[0].exported() + exported_all(s.drop_first())
    }
}

/// Exporting one more value at the end appends its encoding at the end.
proof fn lemma_exported_all_push<T: Exportable>(s: Seq<T>, t: T)
    ensures
        exported_all(s.push(t)) == exported_all(s) + t.exported(),
    decreases s.len(),
{
    assert(exported_all(Seq::<T>::empty()) == Seq::<LuaValue>::empty());
    if s.len() == 0 {
        assert(s.push(t).drop_first() =~= Seq::<T>::empty());
        assert(s.push(t)[0] == t);
        assert(exported_all(s.push(t)) == t.exported() + exported_all(Seq::<T>::empty()));
        assert(exported_all(s.push(t)) =~= exported_all(s) + t.exported());
    } else {
        assert(s.push(t).drop_first() =~= s.drop_first().push(t));
        lemma_exported_all_push(s.drop_first(), t);
        assert(s.push(t)[0] == s[0]);
        assert(exported_all(s.push(t)) == s[0].exported() + exported_all(s.drop_first().push(t)));
        assert(exported_all(s) == s[0].exported() + exported_all(s.drop_first()));
        assert(exported_all(s.push(t)) =~= exported_all(s) + t.exported());
    }
}

impl<T: Exportable> Exportable for Vec<T> {
    open spec fn exported(&self) -> Seq<LuaValue> {
        exported_all(self@)
    }

    fn export(&self, out: &mut ExportQueue) {
        let n = self.len();
        let mut i: usize = 0;
        proof {
            assert(self@.subrange(0, 0) =~= Seq::<T>::empty());
        }
        while i < n
            invariant
                n == self@.len(),
                i <= n,
                out.contents() == old(out).contents() + exported_all(self@.subrange(0, i as int)),
            decreases n - i,
        {
            let ghost before = self@.subrange(0, i as int);
            self[i].export(out);
            proof {
                assert(self@.subrange(0, i + 1) =~= before.push(self@[i as int]));
                lemma_exported_all_push(before, self@[i as int]);
            }
            i = i + 1;
        }
        proof {
            assert(self@.subrange(0, n as int) =~= self@);
        }
    }
}

impl<A: Exportable, B: Exportable> Exportable for (A, B) {
    open spec fn exported(&self) -> Seq<LuaValue> {
        self.0.exported() + self.1.exported()
    }

    fn export(&self, out: &mut ExportQueue) {
        self.0.export(out);
        self.1.export(out);
        proof {
            assert(final(out).contents() =~= old(out).contents() + self.exported());
        }
    }
}

impl<A: Importable, B: Importable> Importable for (A, B) {
    open spec fn can_import(src: Seq<LuaValue>) -> bool {
        A::can_import(src) && B::can_import(A::import_rest(src))
    }

    open spec fn import_ok(src: Seq<LuaValue>) -> (A, B) {
        (A::import_ok(src), B::import_ok(A::import_rest(src)))
    }

    open spec fn import_rest(src: Seq<LuaValue>) -> Seq<LuaValue> {
        if A::can_import(src) {
            B::import_rest(A::import_rest(src))
        } else {
            A::import_rest(src)
        }
    }

    fn import(src: &mut ImportQueue) -> (r: LuaResult<(A, B)>) {
        match A::import(src) {
            Err(e) => Err(e),
            Ok(a) => match B::import(src) {
                Err(e) => Err(e),
                Ok(b) => Ok((a, b)),
            },
        }
    }
}

} // verus!
