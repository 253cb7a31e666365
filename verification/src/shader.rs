use vstd::prelude::*;

use naga::valid::{Capabilities, ValidationFlags, Validator};
use naga::TypeInner;

use crate::id_map::IdMap;
use crate::name_map::{lemma_push_contains, NameMap};

verus! {

/// A member of a WGSL struct type: its name, the position of its type in
/// the module's type table, and its byte offset in the struct.
pub struct WgslMember {
    pub name: Option<String>,
    pub ty: usize,
    pub offset: u32,
}

/// The shape of a WGSL type, as far as uniform layout needs it.
pub enum WgslTypeInner {
    /// A scalar (`f32`, `u32`, `i32`, ...).
    Scalar,
    /// A vector with this many components.
    Vector(u8),
    /// A struct of `span` bytes.
    Struct { span: u32, members: Vec<WgslMember> },
    /// Any other kind of type.
    Other,
}

/// An entry of a WGSL module's type table.
pub struct WgslType {
    pub name: Option<String>,
    pub inner: WgslTypeInner,
}

/// The type table of the WGSL module that naga's parser builds from
/// `source`, in table order, or the parser's message when `source` is not
/// valid WGSL.
pub uninterp spec fn wgsl_types(source: Seq<char>) -> Result<Seq<WgslType>, Seq<char>>;

/// The outcome of naga's validator (all validation flags, default
/// capabilities) on the module parsed from `source`: `Ok` when it passes,
/// and otherwise the rendered validation report (or the parser's message
/// when `source` does not parse).
pub uninterp spec fn wgsl_validation(source: Seq<char>) -> Result<(), Seq<char>>;

/// Calls `naga::front::wgsl::parse_str` on `source` and converts the type
/// table of the module it builds (in table order; a type handle becomes its
/// position) or its `ParseError::message`. Claimed: the result is
/// `wgsl_types` of the text.
#[verifier::external_body]
pub(crate) fn parse_wgsl(source: &str) -> (r: Result<Vec<WgslType>, String>)
    ensures
        wgsl_types(source@) == (match r {
            Ok(types) => Ok::<Seq<WgslType>, Seq<char>>(types@),
            Err(m) => Err::<Seq<WgslType>, Seq<char>>(m@),
        }),
{
    let module = naga::front::wgsl::parse_str(source).map_err(|e| e.message().to_string())?;
    Ok(module.types.iter().map(|(_, t)| WgslType { name: t.name.clone(), inner: match &t.inner {
        TypeInner::Scalar(_) => WgslTypeInner::Scalar,
        TypeInner::Vector { size, .. } => WgslTypeInner::Vector(*size as u8),
        TypeInner::Struct { members, span } => WgslTypeInner::Struct { span: *span, members: members.iter().map(
            |m| WgslMember { name: m.name.clone(), ty: m.ty.index(), offset: m.offset }).collect() },
        _ => WgslTypeInner::Other,
    } }).collect())
}

/// Calls `naga::valid::Validator::validate` (with `ValidationFlags::all()`
/// and `Capabilities::default()`) on the module that `parse_str` builds from
/// `source`; a failure is rendered with `emit_to_string` against `source`.
/// Claimed: the result is `wgsl_validation` of the text.
#[verifier::external_body]
fn validate_wgsl(source: &str) -> (r: Result<(), String>)
    ensures
        wgsl_validation(source@) == (match r {
            Ok(_) => Ok::<(), Seq<char>>(()),
            Err(m) => Err::<(), Seq<char>>(m@),
        }),
{
    let module = naga::front::wgsl::parse_str(source).map_err(|e| e.message().to_string())?;
    let mut validator = Validator::new(ValidationFlags::all(), Capabilities::default());
    validator.validate(&module).map(|_| ()).map_err(|e| e.emit_to_string(source))
}

/// Where a uniform lives in the uniform buffer.
#[derive(Clone, Copy, PartialEq, Eq, Debug)]
pub struct UniformVariable {
    pub offset: usize,
    pub size: usize,
}

/// The size in bytes of a member whose type is at position `ty`: 4 for a
/// scalar, 4 per component for a vector, and 4 for anything else (a
/// position outside the table included).
pub open spec fn member_size(types: Seq<WgslType>, ty: usize) -> usize {
    if ty < types.len() {
        match types[ty as int].inner {
            WgslTypeInner::Vector(n) => (n * 4) as usize,
            _ => 4,
        }
    } else {
        4
    }
}

/// `m` with an entry for each named member of `members`, in order (a later
/// member replaces an earlier one of the same name).
pub open spec fn with_members(
    types: Seq<WgslType>,
    members: Seq<WgslMember>,
    m: Map<Seq<char>, UniformVariable>,
) -> Map<Seq<char>, UniformVariable>
    decreases members.len(),
{
    if members.len() == 0 {
        m
    } else {
        let prev = with_members(types, members.drop_last(), m);
        let last = members.last();
        match last.name {
            Some(name) => prev.insert(
                name@,
                UniformVariable { offset: last.offset as usize, size: member_size(types, last.ty) },
            ),
            None => prev,
        }
    }
}

/// Whether a type is the struct named `Uniforms`.
pub open spec fn is_uniforms_struct(t: WgslType) -> bool {
    &&& t.inner is Struct
    &&& t.name matches Some(n) && n@ == "Uniforms"@
}

/// The uniforms and the struct size found in the first `n` types: each
/// struct named `Uniforms` adds its named members and sets the size to its
/// span.
pub open spec fn uniform_table(types: Seq<WgslType>, n: int) -> (Map<Seq<char>, UniformVariable>, nat)
    decreases n,
{
    if n <= 0 {
        (Map::empty(), 0)
    } else {
        let prev = uniform_table(types, n - 1);
        let t = types[n - 1];
        if is_uniforms_struct(t) {
            match t.inner {
                WgslTypeInner::Struct { span, members } => (with_members(types, members@, prev.0), span as nat),
                _ => prev,
            }
        } else {
            prev
        }
    }
}

/// The uniforms of a shader and the size of its `Uniforms` struct.
pub struct UniformLayout {
    pub uniforms: NameMap<UniformVariable>,
    pub struct_size: u32,
}

fn member_size_of(types: &Vec<WgslType>, ty: usize) -> (s: usize)
    ensures
        s == member_size(types@, ty),
{
    if ty < types.len() {
        match &types[ty].inner {
            WgslTypeInner::Vector(n) => (*n as usize) * 4,
            _ => 4,
        }
    } else {
        4
    }
}

fn add_members(types: &Vec<WgslType>, members: &Vec<WgslMember>, table: &mut NameMap<UniformVariable>)
    requires
        old(table).wf(),
    ensures
        final(table).wf(),
        final(table)@ == with_members(types@, members@, old(table)@),
{
    let ghost start = table@;
    let mut i: usize = 0;
    while i < members.len()
        invariant
            i <= members@.len(),
            table.wf(),
            table@ == with_members(types@, members@.take(i as int), start),
        decreases members@.len() - i,
    {
        proof {
            assert(members@.take(i + 1).drop_last() =~= members@.take(i as int));
        }
        let m = &members[i];
        match &m.name {
            Some(name) => {
                let size = member_size_of(types, m.ty);
                table.insert(name.clone(), UniformVariable { offset: m.offset as usize, size });
            },
            None => {},
        }
        i = i + 1;
    }
    proof {
        assert(members@.take(members@.len() as int) =~= members@);
    }
}

/// The uniforms of the `Uniforms` struct of a type table: where each named
/// member lives and how large it is, with the struct's span as the size.
pub fn uniform_layout(types: &Vec<WgslType>) -> (r: UniformLayout)
    ensures
        r.uniforms.wf(),
        r.uniforms@ == uniform_table(types@, types@.len() as int).0,
        r.struct_size as nat == uniform_table(types@, types@.len() as int).1,
{
    let mut uniforms: NameMap<UniformVariable> = NameMap::new();
    let mut struct_size: u32 = 0;
    let key = "Uniforms".to_owned();
    let mut i: usize = 0;
    while i < types.len()
        invariant
            i <= types@.len(),
            key@ == "Uniforms"@,
            uniforms.wf(),
            uniforms@ == uniform_table(types@, i as int).0,
            struct_size as nat == uniform_table(types@, i as int).1,
        decreases types@.len() - i,
    {
        let t = &types[i];
        let named = match &t.name {
            Some(n) => *n == key,
            None => false,
        };
        if named {
            match &t.inner {
                WgslTypeInner::Struct { span, members } => {
                    add_members(types, members, &mut uniforms);
                    struct_size = *span;
                },
                _ => {},
            }
        }
        i = i + 1;
    }
    UniformLayout { uniforms, struct_size }
}

/// A zero-filled byte sequence of length `n`.
pub open spec fn zeros(n: nat) -> Seq<u8> {
    Seq::new(n, |i: int| 0u8)
}

/// `n` rounded up to a multiple of 16, the alignment of a uniform buffer.
pub open spec fn padded_size(n: nat) -> nat {
    ((n + 15) / 16) * 16
}

/// `bytes` with `value` written from position `at` on.
pub open spec fn write_bytes(bytes: Seq<u8>, at: int, value: Seq<u8>) -> Seq<u8> {
    Seq::new(bytes.len(), |i: int| if at <= i < at + value.len() { value[i - at] } else { bytes[i] })
}

/// A uniform that a 4-byte value can be written to within a buffer of
/// `len` bytes.
pub open spec fn fits_four_bytes(u: UniformVariable, len: nat) -> bool {
    u.size == 4 && u.offset + 4 <= len
}

/// Writing a value and reading its span back gives the value; every other
/// byte keeps what it held, and the buffer keeps its length.
pub proof fn law_uniform_write_reads_back(bytes: Seq<u8>, at: int, value: Seq<u8>)
    requires
        0 <= at,
        at + value.len() <= bytes.len(),
    ensures
        write_bytes(bytes, at, value).len() == bytes.len(),
        write_bytes(bytes, at, value).subrange(at, at + value.len()) == value,
        forall|i: int|
            0 <= i < bytes.len() && !(at <= i < at + value.len()) ==> #[trigger] write_bytes(bytes, at, value)[i] == bytes[i],
{
    assert(write_bytes(bytes, at, value).subrange(at, at + value.len()) =~= value);
}

/// The uniform buffer of a shader as plain values.
pub struct UniformBufferView {
    pub uniforms: Map<Seq<char>, UniformVariable>,
    pub bytes: Seq<u8>,
    pub changed: bool,
}

/// The buffer a shader with this type table starts with: its uniforms, a
/// zeroed buffer as large as the padded struct, nothing to upload.
pub open spec fn initial_buffer(types: Seq<WgslType>) -> UniformBufferView {
    let table = uniform_table(types, types.len() as int);
    UniformBufferView { uniforms: table.0, bytes: zeros(padded_size(table.1)), changed: false }
}

/// Why a shader could not be loaded or a uniform not be set.
pub enum ShaderError {
    /// The source is not valid WGSL (found when the shader is requested).
    InvalidSyntax(String),
    /// The source is not valid WGSL (found when the shader is built).
    Parse(String),
    /// The module does not pass validation.
    Validation(String),
    /// The shader has no uniform of this name.
    UniformNotFound(String),
}

impl ShaderError {
    /// The text the error is reported with.
    pub fn message(&self) -> (m: String)
        ensures
            m@ == match self {
                ShaderError::InvalidSyntax(e) => "Could not load shader due to invalid WGSL syntax: "@ + e@,
                ShaderError::Parse(e) => "Could not parse WGSL shader: "@ + e@,
                ShaderError::Validation(e) => "WGSL shader validation error: "@ + e@,
                ShaderError::UniformNotFound(k) => "Shader uniform "@ + k@ + " not found"@,
            },
    {
        match self {
            ShaderError::InvalidSyntax(e) => {
                let mut m = "Could not load shader due to invalid WGSL syntax: ".to_owned();
                m.append(e.as_str());
                m
            },
            ShaderError::Parse(e) => {
                let mut m = "Could not parse WGSL shader: ".to_owned();
                m.append(e.as_str());
                m
            },
            ShaderError::Validation(e) => {
                let mut m = "WGSL shader validation error: ".to_owned();
                m.append(e.as_str());
                m
            },
            ShaderError::UniformNotFound(k) => {
                let mut m = "Shader uniform ".to_owned();
                m.append(k.as_str());
                m.append(" not found");
                m
            },
        }
    }
}

/// The uniforms of a shader and the bytes uploaded for them, with a flag
/// that says whether they changed since the last upload.
pub struct UniformBuffer {
    uniforms: NameMap<UniformVariable>,
    bytes: Vec<u8>,
    changed: bool,
}

impl View for UniformBuffer {
    type V = UniformBufferView;

    closed spec fn view(&self) -> UniformBufferView {
        UniformBufferView { uniforms: self.uniforms@, bytes: self.bytes@, changed: self.changed }
    }
}

impl UniformBuffer {
    pub closed spec fn wf(&self) -> bool {
        self.uniforms.wf()
    }

    /// A zeroed buffer for the layout, rounded up to 16 bytes.
    pub fn from_layout(layout: UniformLayout) -> (b: Self)
        requires
            layout.uniforms.wf(),
        ensures
            b.wf(),
            b@ == (UniformBufferView {
                uniforms: layout.uniforms@,
                bytes: zeros(padded_size(layout.struct_size as nat)),
                changed: false,
            }),
    {
        let padded: u64 = ((layout.struct_size as u64 + 15) / 16) * 16;
        let mut bytes: Vec<u8> = Vec::new();
        let mut i: u64 = 0;
        while i < padded
            invariant
                i <= padded,
                padded == padded_size(layout.struct_size as nat),
                bytes@ == zeros(i as nat),
            decreases padded - i,
        {
            bytes.push(0u8);
            i = i + 1;
            proof {
                assert(bytes@ =~= zeros(i as nat));
            }
        }
        UniformBuffer { uniforms: layout.uniforms, bytes, changed: false }
    }

    /// Where the uniform `key` lives, if the shader has one of that name.
    pub fn uniform(&self, key: &str) -> (r: Option<UniformVariable>)
        requires
            self.wf(),
        ensures
            r is Some <==> self@.uniforms.contains_key(key@),
            r matches Some(u) ==> u == self@.uniforms[key@],
    {
        match self.uniforms.get(key) {
            Some(u) => Some(*u),
            None => None,
        }
    }

    /// The bytes to upload.
    pub fn bytes(&self) -> (r: &Vec<u8>)
        ensures
            r@ == self@.bytes,
    {
        &self.bytes
    }

    /// Writes the 4 bytes of a value to the uniform `key` and marks the
    /// buffer as changed; a name the shader does not have is an error and
    /// changes nothing.
    pub fn set_uniform(&mut self, key: &str, value: [u8; 4]) -> (r: Result<(), ShaderError>)
        requires
            old(self).wf(),
            old(self)@.uniforms.contains_key(key@) ==> fits_four_bytes(
                old(self)@.uniforms[key@],
                old(self)@.bytes.len(),
            ),
        ensures
            final(self).wf(),
            !old(self)@.uniforms.contains_key(key@) ==> {
                &&& r matches Err(ShaderError::UniformNotFound(k)) && k@ == key@
                &&& final(self)@ == old(self)@
            },
            old(self)@.uniforms.contains_key(key@) ==> {
                &&& r is Ok
                &&& final(self)@ == (UniformBufferView {
                    bytes: write_bytes(old(self)@.bytes, old(self)@.uniforms[key@].offset as int, value@),
                    changed: true,
                    ..old(self)@
                })
            },
    {
        match self.uniform(key) {
            None => Err(ShaderError::UniformNotFound(key.to_owned())),
            Some(u) => {
                let at = u.offset;
                let ghost pre = self.bytes@;
                let len = self.bytes.len();
                let mut j: usize = 0;
                while j < 4
                    invariant
                        j <= 4,
                        at + 4 <= self.bytes@.len(),
                        self.uniforms == old(self).uniforms,
                        self.changed == old(self).changed,
                        self.bytes@.len() == pre.len(),
                        len == pre.len(),
                        forall|i: int| 0 <= i < pre.len() ==> #[trigger] self.bytes@[i] == (
                            if at <= i < at + j { value@[i - at] } else { pre[i] }),
                    decreases 4 - j,
                {
                    self.bytes.set(at + j, value[j]);
                    j = j + 1;
                }
                self.changed = true;
                proof {
                    assert(self.bytes@ =~= write_bytes(pre, at as int, value@));
                }
                Ok(())
            },
        }
    }

    /// Whether the bytes changed since the last upload; clears the flag.
    pub fn take_changed(&mut self) -> (r: bool)
        ensures
            r == old(self)@.changed,
            final(self)@ == (UniformBufferView { changed: false, ..old(self)@ }),
            old(self).wf() ==> final(self).wf(),
    {
        let r = self.changed;
        self.changed = false;
        r
    }
}

fn copy_bytes(v: &Vec<u8>) -> (r: Vec<u8>)
    ensures
        r@ == v@,
{
    let mut r: Vec<u8> = Vec::new();
    let mut i: usize = 0;
    while i < v.len()
        invariant
            i <= v@.len(),
            r@ == v@.take(i as int),
        decreases v@.len() - i,
    {
        r.push(v[i]);
        i = i + 1;
        proof {
            assert(r@ =~= v@.take(i as int));
        }
    }
    proof {
        assert(v@.take(v@.len() as int) =~= v@);
    }
    r
}

impl UniformBuffer {
    /// The bytes to upload when they changed since the last upload, which
    /// this counts as done; `None` when nothing changed.
    pub fn take_upload(&mut self) -> (r: Option<Vec<u8>>)
        requires
            old(self).wf(),
        ensures
            final(self).wf(),
            final(self)@ == (UniformBufferView { changed: false, ..old(self)@ }),
            old(self)@.changed ==> (r matches Some(b) && b@ == old(self)@.bytes),
            !old(self)@.changed ==> r is None,
    {
        if self.take_changed() {
            Some(copy_bytes(&self.bytes))
        } else {
            None
        }
    }
}

/// A shader ready to be built on the GPU: its full WGSL source and its
/// uniform buffer.
pub struct ShaderProgram {
    pub source: String,
    pub uniforms: UniformBuffer,
}

/// The source of a fullscreen shader: the vertex stage, a newline, and the
/// fragment stage.
pub open spec fn joined_source(vertex: Seq<char>, fragment: Seq<char>) -> Seq<char> {
    vertex + "\n"@ + fragment
}

/// Builds a fullscreen shader from its vertex and fragment sources: the
/// joined source must parse and validate; its uniforms are those of its
/// `Uniforms` struct, all zero.
pub fn compile_fullscreen_shader(vertex_source: &str, fragment_source: &str) -> (r: Result<ShaderProgram, ShaderError>)
    ensures
        ({
            let src = joined_source(vertex_source@, fragment_source@);
            match wgsl_types(src) {
                Err(m) => r matches Err(ShaderError::Parse(e)) && e@ == m,
                Ok(types) => match wgsl_validation(src) {
                    Err(m) => r matches Err(ShaderError::Validation(e)) && e@ == m,
                    Ok(_) => r matches Ok(p) && p.source@ == src && p.uniforms.wf() && p.uniforms@ == initial_buffer(types),
                },
            }
        }),
{
    let mut source = vertex_source.to_owned();
    source.append("\n");
    source.append(fragment_source);
    let types = match parse_wgsl(source.as_str()) {
        Ok(t) => t,
        Err(m) => {
            return Err(ShaderError::Parse(m));
        },
    };
    match validate_wgsl(source.as_str()) {
        Ok(_) => {},
        Err(m) => {
            return Err(ShaderError::Validation(m));
        },
    }
    let layout = uniform_layout(&types);
    let uniforms = UniformBuffer::from_layout(layout);
    Ok(ShaderProgram { source, uniforms })
}

/// A fullscreen shader of a sketch.
pub enum FullscreenShader {
    /// Requested; its GPU resources are still being built.
    Unloaded,
    /// Built: its uniforms, and whether it is drawn in the current update.
    Loaded { uniforms: UniformBuffer, is_being_drawn: bool },
}

/// A fullscreen shader as plain values.
pub enum ShaderView {
    Unloaded,
    Loaded { uniforms: UniformBufferView, is_being_drawn: bool },
}

impl View for FullscreenShader {
    type V = ShaderView;

    open spec fn view(&self) -> ShaderView {
        match self {
            FullscreenShader::Loaded { uniforms, is_being_drawn } => ShaderView::Loaded {
                uniforms: uniforms@,
                is_being_drawn: *is_being_drawn,
            },
            FullscreenShader::Unloaded => ShaderView::Unloaded,
        }
    }
}

/// A loaded shader's uniforms are well formed.
pub open spec fn shader_wf(s: FullscreenShader) -> bool {
    match s {
        FullscreenShader::Loaded { uniforms, .. } => uniforms.wf(),
        FullscreenShader::Unloaded => true,
    }
}

/// The shader with its "drawn in this update" flag set to `drawn` (an
/// unloaded shader has no such flag).
pub open spec fn with_drawn(s: ShaderView, drawn: bool) -> ShaderView {
    match s {
        ShaderView::Loaded { uniforms, .. } => ShaderView::Loaded { uniforms, is_being_drawn: drawn },
        ShaderView::Unloaded => ShaderView::Unloaded,
    }
}

/// Whether a 4-byte value can be written to the uniform `key` of a shader:
/// it is still being built, or has no such uniform, or the uniform takes 4
/// bytes within its buffer.
pub open spec fn uniform_settable(s: ShaderView, key: Seq<char>) -> bool {
    match s {
        ShaderView::Loaded { uniforms, .. } => uniforms.uniforms.contains_key(key) ==> fits_four_bytes(
            uniforms.uniforms[key],
            uniforms.bytes.len(),
        ),
        ShaderView::Unloaded => true,
    }
}

/// Whether the shader is loaded and drawn in the current update.
pub open spec fn is_drawn(s: ShaderView) -> bool {
    s matches ShaderView::Loaded { is_being_drawn: true, .. }
}

/// Whether the shader `id` is loaded and its uniforms changed since they
/// were last uploaded.
pub open spec fn has_pending_upload(m: Map<u32, ShaderView>, id: u32) -> bool {
    &&& m.contains_key(id)
    &&& m[id] is Loaded
    &&& m[id]->uniforms.changed
}

/// Once every shader is marked as not drawn, none is drawn, and the same
/// shaders stay, loaded or not as before.
pub proof fn law_no_shader_drawn_after_stop(m: Map<u32, ShaderView>, k: u32)
    ensures
        m.map_values(|s: ShaderView| with_drawn(s, false)).contains_key(k) == m.contains_key(k),
        m.contains_key(k) ==> !is_drawn(m.map_values(|s: ShaderView| with_drawn(s, false))[k]),
        m.contains_key(k) ==> (m.map_values(|s: ShaderView| with_drawn(s, false))[k] is Loaded <==> m[k] is Loaded),
{
}

/// The views of a map of shaders.
pub open spec fn shader_views(m: Map<u32, FullscreenShader>) -> Map<u32, ShaderView> {
    m.map_values(|s: FullscreenShader| s@)
}

fn set_drawn(s: FullscreenShader, drawn: bool) -> (r: FullscreenShader)
    ensures
        r@ == with_drawn(s@, drawn),
        shader_wf(s) ==> shader_wf(r),
{
    match s {
        FullscreenShader::Loaded { uniforms, .. } => FullscreenShader::Loaded { uniforms, is_being_drawn: drawn },
        FullscreenShader::Unloaded => FullscreenShader::Unloaded,
    }
}

/// The fullscreen shaders of a sketch, by id.
pub struct FullscreenShaders {
    shaders: IdMap<u32, FullscreenShader>,
}

impl View for FullscreenShaders {
    type V = Map<u32, ShaderView>;

    closed spec fn view(&self) -> Map<u32, ShaderView> {
        shader_views(self.shaders@)
    }
}

impl FullscreenShaders {
    /// Every loaded shader's uniforms are well formed.
    pub closed spec fn wf(&self) -> bool {
        forall|k: u32| #[trigger] self.shaders@.contains_key(k) ==> shader_wf(self.shaders@[k])
    }

    pub fn new() -> (r: Self)
        ensures
            r.wf(),
            r@ == Map::<u32, ShaderView>::empty(),
    {
        let r = FullscreenShaders { shaders: IdMap::new() };
        proof {
            assert(r@ =~= Map::<u32, ShaderView>::empty());
        }
        r
    }

    /// Whether the shader `id` was requested and is built.
    pub fn is_loaded(&self, id: u32) -> (r: bool)
        ensures
            r == (self@.contains_key(id) && self@[id] is Loaded),
    {
        match self.shaders.get(id) {
            Some(FullscreenShader::Loaded { .. }) => {
                proof {
                    assert(self@[id] == self.shaders@[id]@);
                }
                true
            },
            Some(FullscreenShader::Unloaded) => {
                proof {
                    assert(self@[id] == self.shaders@[id]@);
                }
                false
            },
            None => false,
        }
    }

    /// Whether a shader with this id was requested.
    pub fn contains(&self, id: u32) -> (r: bool)
        ensures
            r == self@.contains_key(id),
    {
        self.shaders.contains(id)
    }

    proof fn lemma_insert(&self, id: u32, s: FullscreenShader, after: Map<u32, FullscreenShader>)
        requires
            after == self.shaders@.insert(id, s),
        ensures
            shader_views(after) == self@.insert(id, s@),
    {
        assert(shader_views(after) =~= self@.insert(id, s@));
    }

    /// Stores a shader under `id`, replacing any earlier one.
    fn put(&mut self, id: u32, s: FullscreenShader)
        requires
            old(self).wf(),
            shader_wf(s),
        ensures
            final(self).wf(),
            final(self)@ == old(self)@.insert(id, s@),
    {
        let ghost pre = *self;
        self.shaders.insert(id, s);
        proof {
            pre.lemma_insert(id, s, self.shaders@);
        }
    }

    /// Takes the shader `id` out, leaving an unloaded one in its place.
    fn take(&mut self, id: u32) -> (s: FullscreenShader)
        requires
            old(self).wf(),
            old(self)@.contains_key(id),
        ensures
            final(self).wf(),
            shader_wf(s),
            s@ == old(self)@[id],
            final(self)@ == old(self)@.insert(id, ShaderView::Unloaded),
    {
        let ghost pre = *self;
        let s = self.shaders.replace_with(id, FullscreenShader::Unloaded);
        proof {
            pre.lemma_insert(id, FullscreenShader::Unloaded, self.shaders@);
        }
        s
    }

    /// Records that the shader `id` was requested and is being built.
    pub fn insert_unloaded(&mut self, id: u32)
        requires
            old(self).wf(),
        ensures
            final(self).wf(),
            final(self)@ == old(self)@.insert(id, ShaderView::Unloaded),
    {
        self.put(id, FullscreenShader::Unloaded);
    }

    /// Records that the shader `id` was built with these uniforms; it is
    /// drawn from then on until the next update starts.
    pub fn insert_loaded(&mut self, id: u32, uniforms: UniformBuffer)
        requires
            old(self).wf(),
            uniforms.wf(),
        ensures
            final(self).wf(),
            final(self)@ == old(self)@.insert(id, ShaderView::Loaded { uniforms: uniforms@, is_being_drawn: true }),
    {
        self.put(id, FullscreenShader::Loaded { uniforms, is_being_drawn: true });
    }

    /// Marks the shader `id`, if loaded, as drawn in this update.
    pub fn mark_drawn(&mut self, id: u32)
        requires
            old(self).wf(),
            old(self)@.contains_key(id),
        ensures
            final(self).wf(),
            final(self)@ == old(self)@.insert(id, with_drawn(old(self)@[id], true)),
    {
        let s = self.take(id);
        let s = set_drawn(s, true);
        self.put(id, s);
        proof {
            assert(final(self)@ =~= old(self)@.insert(id, with_drawn(old(self)@[id], true)));
        }
    }

    /// Marks every loaded shader as not drawn.
    pub fn stop_drawing_all(&mut self)
        requires
            old(self).wf(),
        ensures
            final(self).wf(),
            final(self)@ == old(self)@.map_values(|s: ShaderView| with_drawn(s, false)),
    {
        let ghost pre = self@;
        let keys = self.shaders.keys();
        let mut i: usize = 0;
        while i < keys.len()
            invariant
                self.wf(),
                i <= keys@.len(),
                keys@.no_duplicates(),
                forall|k: u32| #[trigger] pre.contains_key(k) <==> keys@.contains(k),
                self@.dom() == pre.dom(),
                forall|j: int| 0 <= j < i ==> #[trigger] self@[keys@[j]] == with_drawn(pre[keys@[j]], false),
                forall|j: int| i <= j < keys@.len() ==> #[trigger] self@[keys@[j]] == pre[keys@[j]],
            decreases keys@.len() - i,
        {
            let k = keys[i];
            proof {
                assert(keys@.contains(k));
            }
            let ghost before = self@;
            let s = self.take(k);
            let s = set_drawn(s, false);
            self.put(k, s);
            proof {
                assert(self@ =~= before.insert(k, with_drawn(pre[k], false)));
                assert forall|j: int| i + 1 <= j < keys@.len() implies #[trigger] self@[keys@[j]] == pre[keys@[j]] by {
                    assert(keys@[j] != keys@[i as int]);
                }
                assert forall|j: int| 0 <= j < i + 1 implies #[trigger] self@[keys@[j]] == with_drawn(pre[keys@[j]], false) by {
                    if j < i {
                        assert(keys@[j] != keys@[i as int]);
                    }
                }
            }
            i = i + 1;
        }
        proof {
            assert forall|k: u32| #[trigger] pre.contains_key(k) implies self@[k] == with_drawn(pre[k], false) by {
                assert(keys@.contains(k));
                let j = choose|j: int| 0 <= j < keys@.len() && keys@[j] == k;
                assert(self@[keys@[j]] == with_drawn(pre[keys@[j]], false));
            }
            assert(self@ =~= pre.map_values(|s: ShaderView| with_drawn(s, false)));
        }
    }

    /// Whether a 4-byte value can be written to the uniform `key` of the
    /// shader `id`: the shader is still being built, or has no such uniform,
    /// or the uniform takes 4 bytes within its buffer.
    pub fn can_set_uniform(&self, id: u32, key: &str) -> (r: bool)
        requires
            self.wf(),
            self@.contains_key(id),
        ensures
            r == uniform_settable(self@[id], key@),
    {
        match self.shaders.get(id) {
            Some(FullscreenShader::Loaded { uniforms, .. }) => {
                proof {
                    assert(self@[id] == self.shaders@[id]@);
                    assert(self@[id]->uniforms == uniforms@);
                    assert(uniforms.wf());
                }
                match uniforms.uniform(key) {
                    Some(u) => {
                        let len = uniforms.bytes().len();
                        let r = u.size == 4 && u.offset <= len && 4 <= len - u.offset;
                        proof {
                            assert(u == uniforms@.uniforms[key@]);
                            assert(r == fits_four_bytes(u, len as nat));
                        }
                        r
                    },
                    None => true,
                }
            },
            _ => {
                proof {
                    assert(self@[id] == self.shaders@[id]@);
                }
                true
            },
        }
    }

    /// Writes the 4 bytes of a value to the uniform `key` of the shader
    /// `id`. A shader that is still being built ignores the write.
    pub fn set_uniform(&mut self, id: u32, key: &str, value: [u8; 4]) -> (r: Result<(), ShaderError>)
        requires
            old(self).wf(),
            old(self)@.contains_key(id),
            uniform_settable(old(self)@[id], key@),
        ensures
            final(self).wf(),
            old(self)@[id] is Unloaded ==> r is Ok && final(self)@ == old(self)@,
            old(self)@[id] matches ShaderView::Loaded { uniforms, is_being_drawn } ==> {
                &&& !uniforms.uniforms.contains_key(key@) ==> {
                    &&& r matches Err(ShaderError::UniformNotFound(k)) && k@ == key@
                    &&& final(self)@ == old(self)@
                }
                &&& uniforms.uniforms.contains_key(key@) ==> {
                    &&& r is Ok
                    &&& final(self)@ == old(self)@.insert(id, ShaderView::Loaded {
                        uniforms: UniformBufferView {
                            bytes: write_bytes(uniforms.bytes, uniforms.uniforms[key@].offset as int, value@),
                            changed: true,
                            ..uniforms
                        },
                        is_being_drawn,
                    })
                }
            },
    {
        let s = self.take(id);
        match s {
            FullscreenShader::Unloaded => {
                self.put(id, FullscreenShader::Unloaded);
                proof {
                    assert(final(self)@ =~= old(self)@);
                }
                Ok(())
            },
            FullscreenShader::Loaded { mut uniforms, is_being_drawn } => {
                let r = uniforms.set_uniform(key, value);
                self.put(id, FullscreenShader::Loaded { uniforms, is_being_drawn });
                proof {
                    if r is Err {
                        assert(final(self)@ =~= old(self)@);
                    }
                }
                r
            },
        }
    }

    /// The uniform bytes of the shader `id` to upload, when it is loaded and
    /// they changed since the last upload (which this counts as done).
    pub fn take_upload(&mut self, id: u32) -> (r: Option<Vec<u8>>)
        requires
            old(self).wf(),
        ensures
            final(self).wf(),
            has_pending_upload(old(self)@, id) ==> {
                &&& r matches Some(b) && b@ == old(self)@[id]->uniforms.bytes
                &&& final(self)@ == old(self)@.insert(id, ShaderView::Loaded {
                    uniforms: UniformBufferView { changed: false, ..old(self)@[id]->uniforms },
                    is_being_drawn: old(self)@[id]->is_being_drawn,
                })
            },
            !has_pending_upload(old(self)@, id) ==> r is None && final(self)@ == old(self)@,
    {
        if !self.shaders.contains(id) {
            return None;
        }
        let s = self.take(id);
        match s {
            FullscreenShader::Unloaded => {
                self.put(id, FullscreenShader::Unloaded);
                proof {
                    assert(final(self)@ =~= old(self)@);
                }
                None
            },
            FullscreenShader::Loaded { mut uniforms, is_being_drawn } => {
                let r = uniforms.take_upload();
                self.put(id, FullscreenShader::Loaded { uniforms, is_being_drawn });
                proof {
                    if r is None {
                        assert(final(self)@ =~= old(self)@);
                    }
                }
                r
            },
        }
    }

    /// The ids of the loaded shaders that are drawn in this update, each
    /// once.
    pub fn drawn_ids(&self) -> (r: Vec<u32>)
        ensures
            r@.no_duplicates(),
            forall|k: u32| #[trigger] r@.contains(k) <==> (self@.contains_key(k) && is_drawn(self@[k])),
    {
        let keys = self.shaders.keys();
        let mut r: Vec<u32> = Vec::new();
        let mut i: usize = 0;
        while i < keys.len()
            invariant
                i <= keys@.len(),
                keys@.no_duplicates(),
                forall|k: u32| #[trigger] self.shaders@.contains_key(k) <==> keys@.contains(k),
                r@.no_duplicates(),
                forall|k: u32| #[trigger] r@.contains(k) <==> (keys@.take(i as int).contains(k) && is_drawn(self.shaders@[k]@)),
            decreases keys@.len() - i,
        {
            let k = keys[i];
            proof {
                assert(keys@.contains(k));
                assert(keys@.take(i + 1) =~= keys@.take(i as int).push(k));
                assert(!keys@.take(i as int).contains(k)) by {
                    if keys@.take(i as int).contains(k) {
                        let j = choose|j: int| 0 <= j < i && keys@.take(i as int)[j] == k;
                        assert(keys@[j] == keys@[i as int]);
                    }
                }
            }
            let drawn = match self.shaders.get(k) {
                Some(FullscreenShader::Loaded { is_being_drawn, .. }) => *is_being_drawn,
                _ => false,
            };
            proof {
                assert(drawn == is_drawn(self.shaders@[k]@));
            }
            if drawn {
                let ghost pre = r@;
                r.push(k);
                proof {
                    assert(!pre.contains(k));
                    assert forall|a: int, b: int| 0 <= a < b < r@.len() implies r@[a] != r@[b] by {
                        assert(pre[a] == r@[a]);
                        if b == pre.len() {
                            assert(pre.contains(r@[a]));
                        } else {
                            assert(pre[b] == r@[b]);
                        }
                    }
                    assert forall|x: u32| #[trigger] r@.contains(x) <==> (keys@.take(i + 1).contains(x) && is_drawn(self.shaders@[x]@)) by {
                        lemma_push_contains(pre, k, x);
                        lemma_push_contains(keys@.take(i as int), k, x);
                    }
                }
            } else {
                proof {
                    assert forall|x: u32| #[trigger] r@.contains(x) <==> (keys@.take(i + 1).contains(x) && is_drawn(self.shaders@[x]@)) by {
                        lemma_push_contains(keys@.take(i as int), k, x);
                        if x == k {
                            assert(!is_drawn(self.shaders@[k]@));
                        }
                    }
                }
            }
            i = i + 1;
        }
        proof {
            assert(keys@.take(keys@.len() as int) =~= keys@);
            assert forall|k: u32| #[trigger] r@.contains(k) <==> (self@.contains_key(k) && is_drawn(self@[k])) by {
                if self.shaders@.contains_key(k) {
                    assert(self@[k] == self.shaders@[k]@);
                }
            }
        }
        r
    }
}

/// A request to build a fullscreen shader on the GPU, for a sketch whose
/// render texture has this size.
pub struct ShaderLoadRequest {
    pub id: u32,
    pub source: String,
    pub width: u32,
    pub height: u32,
}

} // verus!
