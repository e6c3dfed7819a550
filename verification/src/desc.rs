use vstd::prelude::*;

verus! {

// Device objects described by plain values. A description says what is made; making it is the
// device's work.

/// How texels of a device texture are stored.
#[derive(Clone, Copy, Debug, PartialEq, Eq, Structural)]
pub enum GpuFormat {
    Rgba8Unorm,
    Rgba16Float,
    Rgba32Float,
    R32Float,
    R32Uint,
    R16Uint,
    Rg8Snorm,
    Depth24PlusStencil8,
    Depth32Float,
}

/// How a shader sees texels.
#[derive(Clone, Copy, Debug, PartialEq, Eq, Structural)]
pub enum SampleType {
    /// Numbers that a sampler may blend.
    Filterable,
    /// Numbers that are only loaded.
    Unfilterable,
    Depth,
    Uint,
}

/// The shape of a texture view.
#[derive(Clone, Copy, Debug, PartialEq, Eq, Structural)]
pub enum ViewDimension {
    D2,
    D2Array,
    D3,
}

/// What a texture may be used for.
#[derive(Clone, Copy, Debug, PartialEq, Eq, Structural)]
pub struct TextureUse {
    pub sampled: bool,
    pub storage: bool,
    pub attachment: bool,
    pub copy_dst: bool,
    pub copy_src: bool,
}

/// A texture of one sample per texel.
#[derive(Clone, Copy, Debug, PartialEq, Eq, Structural)]
pub struct TextureDesc {
    pub width: u32,
    pub height: u32,
    pub layers: u32,
    pub format: GpuFormat,
    pub usage: TextureUse,
    pub view: ViewDimension,
}

/// What a buffer may be used for, besides being written by the processor.
#[derive(Clone, Copy, Debug, PartialEq, Eq, Structural)]
pub enum BufferUse {
    Uniform,
    Storage,
    /// Read and written by shaders and copied out.
    Counter,
    /// Read and written by shaders and read as the arguments of draws.
    Indirect,
    /// Read as the arguments of draws, and copied into.
    Arguments,
    Vertex,
}

/// A buffer.
#[derive(Clone, Copy, Debug, PartialEq, Eq, Structural)]
pub struct BufferDesc {
    pub size: u64,
    pub usage: BufferUse,
}

/// What happens outside a texture's edge.
#[derive(Clone, Copy, Debug, PartialEq, Eq, Structural)]
pub enum AddressMode {
    ClampToEdge,
    Repeat,
}

/// How texels are blended.
#[derive(Clone, Copy, Debug, PartialEq, Eq, Structural)]
pub enum FilterMode {
    Nearest,
    Linear,
}

/// A comparison of depths.
#[derive(Clone, Copy, Debug, PartialEq, Eq, Structural)]
pub enum DepthCompare {
    Always,
    LessEqual,
    GreaterEqual,
}

/// A sampler.
#[derive(Clone, Copy, Debug, PartialEq, Eq, Structural)]
pub struct SamplerDesc {
    pub address_u: AddressMode,
    pub address_v: AddressMode,
    pub address_w: AddressMode,
    pub filter: FilterMode,
    pub mipmap: FilterMode,
    pub anisotropy: u16,
    /// It compares depths, being less or equal, instead of reading texels.
    pub comparison: bool,
}

/// Which shaders see a binding.
#[derive(Clone, Copy, Debug, PartialEq, Eq, Structural)]
pub struct Stages {
    pub vertex: bool,
    pub fragment: bool,
    pub compute: bool,
}

/// What a binding holds.
#[derive(Clone, Copy, Debug, PartialEq, Eq, Structural)]
pub enum BindingKind {
    /// A uniform buffer of at least `min_size` bytes.
    Uniform { dynamic: bool, min_size: u64 },
    /// A storage buffer of at least `min_size` bytes.
    Storage { read_only: bool, min_size: u64 },
    Texture { sample: SampleType, view: ViewDimension },
    /// A texture that shaders write.
    StorageTexture { format: GpuFormat, view: ViewDimension },
    Sampler { comparison: bool },
}

/// One binding of a layout; `count` bindings in an array, if it is not zero.
#[derive(Clone, Copy, Debug, PartialEq, Eq, Structural)]
pub struct LayoutEntry {
    pub binding: u32,
    pub stages: Stages,
    pub kind: BindingKind,
    pub count: u32,
}

/// What fills a binding: an object of the same plan by its position, or one lent by another
/// owner that fits wherever it is lent for.
#[derive(Clone, Copy, Debug, PartialEq, Eq, Structural)]
pub enum Resource {
    Buffer(usize),
    /// So many bytes of a buffer, from wherever the draw says.
    BufferPart(usize, u64),
    Texture(usize),
    Sampler(usize),
    Lent,
}

/// One filled binding.
#[derive(Clone, Copy, Debug, PartialEq, Eq, Structural)]
pub struct BindEntry {
    pub binding: u32,
    pub resource: Resource,
}

/// A filled layout.
pub struct BindGroupDesc {
    pub layout: usize,
    pub entries: Vec<BindEntry>,
}

/// The objects a subsystem makes once, at its start.
pub struct ResourcePlan {
    pub buffers: Vec<BufferDesc>,
    pub textures: Vec<TextureDesc>,
    pub samplers: Vec<SamplerDesc>,
    pub layouts: Vec<Vec<LayoutEntry>>,
    pub groups: Vec<BindGroupDesc>,
}

/// Texels of the format can be seen as `sample`.
pub open spec fn seen_as(format: GpuFormat, sample: SampleType) -> bool {
    match sample {
        SampleType::Filterable => format == GpuFormat::Rgba8Unorm || format
            == GpuFormat::Rgba16Float || format == GpuFormat::Rg8Snorm,
        SampleType::Unfilterable => format == GpuFormat::Rgba8Unorm || format
            == GpuFormat::Rgba16Float || format == GpuFormat::Rg8Snorm || format
            == GpuFormat::Rgba32Float || format == GpuFormat::R32Float,
        SampleType::Depth => format == GpuFormat::Depth32Float || format
            == GpuFormat::Depth24PlusStencil8,
        SampleType::Uint => format == GpuFormat::R32Uint || format == GpuFormat::R16Uint,
    }
}

impl ResourcePlan {
    /// `resource` may fill a binding of `kind`.
    pub open spec fn fills(&self, kind: BindingKind, resource: Resource) -> bool {
        match (kind, resource) {
            (_, Resource::Lent) => true,
            (BindingKind::Uniform { dynamic, min_size }, Resource::Buffer(i)) => i
                < self.buffers@.len() && self.buffers@[i as int].usage == BufferUse::Uniform
                && self.buffers@[i as int].size >= min_size,
            (BindingKind::Uniform { dynamic, min_size }, Resource::BufferPart(i, part)) => dynamic
                && i < self.buffers@.len() && self.buffers@[i as int].usage == BufferUse::Uniform
                && min_size <= part <= self.buffers@[i as int].size,
            (BindingKind::Storage { read_only, min_size }, Resource::Buffer(i)) => i
                < self.buffers@.len() && (self.buffers@[i as int].usage == BufferUse::Storage
                || self.buffers@[i as int].usage == BufferUse::Counter
                || self.buffers@[i as int].usage == BufferUse::Indirect)
                && self.buffers@[i as int].size >= min_size,
            (BindingKind::Texture { sample, view }, Resource::Texture(i)) => i
                < self.textures@.len() && self.textures@[i as int].usage.sampled
                && self.textures@[i as int].view == view && seen_as(
                self.textures@[i as int].format,
                sample,
            ),
            (BindingKind::StorageTexture { format, view }, Resource::Texture(i)) => i
                < self.textures@.len() && self.textures@[i as int].usage.storage
                && self.textures@[i as int].view == view && self.textures@[i as int].format
                == format,
            (BindingKind::Sampler { comparison }, Resource::Sampler(i)) => i < self.samplers@.len()
                && self.samplers@[i as int].comparison == comparison,
            _ => false,
        }
    }

    /// `group` fills its layout: the same bindings in the same order, each with something that
    /// may fill it.
    pub open spec fn fits(&self, group: &BindGroupDesc) -> bool {
        &&& group.layout < self.layouts@.len()
        &&& group.entries@.len() == self.layouts@[group.layout as int]@.len()
        &&& forall|e: int|
            0 <= e < group.entries@.len() ==> {
                let entry = #[trigger] group.entries@[e];
                let slot = self.layouts@[group.layout as int]@[e];
                entry.binding == slot.binding && self.fills(slot.kind, entry.resource)
            }
    }

    /// Every group fills its layout, and every texture has an extent.
    pub open spec fn wf(&self) -> bool {
        &&& forall|g: int| 0 <= g < self.groups@.len() ==> self.fits(&#[trigger] self.groups@[g])
        &&& forall|t: int|
            0 <= t < self.textures@.len() ==> {
                let tex = #[trigger] self.textures@[t];
                tex.width > 0 && tex.height > 0 && tex.layers > 0
            }
    }
}

/// A factor of a blend.
#[derive(Clone, Copy, Debug, PartialEq, Eq, Structural)]
pub enum BlendFactor {
    Zero,
    One,
    SrcAlpha,
    OneMinusSrcAlpha,
}

/// Source and destination are weighed and summed.
#[derive(Clone, Copy, Debug, PartialEq, Eq, Structural)]
pub struct BlendComponent {
    pub src: BlendFactor,
    pub dst: BlendFactor,
}

/// How colour and opacity are blended.
#[derive(Clone, Copy, Debug, PartialEq, Eq, Structural)]
pub struct BlendState {
    pub color: BlendComponent,
    pub alpha: BlendComponent,
}

/// What a pipeline draws into.
#[derive(Clone, Copy, Debug, PartialEq, Eq, Structural)]
pub enum ColorTarget {
    /// Whatever the frame is drawn into.
    Scene,
    /// The normals that are drawn ahead of the frame.
    Normals,
}

/// How a pipeline treats depth.
#[derive(Clone, Copy, Debug, PartialEq, Eq, Structural)]
pub struct DepthDesc {
    pub write: bool,
    pub compare: DepthCompare,
}

/// A pipeline that draws triangles.
#[derive(Clone, Copy, Debug, PartialEq, Eq, Structural)]
pub struct RenderPipelineDesc {
    pub target: ColorTarget,
    pub blend: Option<BlendState>,
    /// Nothing for pipelines that draw over everything.
    pub depth: Option<DepthDesc>,
    /// Triangles seen from behind are left out; the front is where corners go clockwise.
    pub cull_back: bool,
    /// Colours are written in linear light.
    pub linear: bool,
}

/// The shaders' stages, for short.
pub open spec fn spec_stages(vertex: bool, fragment: bool, compute: bool) -> Stages {
    Stages { vertex, fragment, compute }
}

/// Which shaders see a binding.
pub fn stages(vertex: bool, fragment: bool, compute: bool) -> (s: Stages)
    ensures
        s == spec_stages(vertex, fragment, compute),
{
    Stages { vertex, fragment, compute }
}

/// A single binding.
pub open spec fn spec_entry(binding: u32, stages: Stages, kind: BindingKind) -> LayoutEntry {
    LayoutEntry { binding, stages, kind, count: 0 }
}

/// A single binding.
pub fn entry(binding: u32, stages: Stages, kind: BindingKind) -> (e: LayoutEntry)
    ensures
        e == spec_entry(binding, stages, kind),
{
    LayoutEntry { binding, stages, kind, count: 0 }
}

/// A binding filled with `resource`.
pub open spec fn spec_bind(binding: u32, resource: Resource) -> BindEntry {
    BindEntry { binding, resource }
}

/// A binding filled with `resource`.
pub fn bind(binding: u32, resource: Resource) -> (b: BindEntry)
    ensures
        b == spec_bind(binding, resource),
{
    BindEntry { binding, resource }
}

/// A sampler that ends at the edge and blends texels of one level.
pub open spec fn edge_sampler() -> SamplerDesc {
    SamplerDesc {
        address_u: AddressMode::ClampToEdge,
        address_v: AddressMode::ClampToEdge,
        address_w: AddressMode::ClampToEdge,
        filter: FilterMode::Linear,
        mipmap: FilterMode::Nearest,
        anisotropy: 1,
        comparison: false,
    }
}

/// A sampler that ends at the edge and blends texels of one level.
pub fn make_edge_sampler() -> (s: SamplerDesc)
    ensures
        s == edge_sampler(),
{
    SamplerDesc {
        address_u: AddressMode::ClampToEdge,
        address_v: AddressMode::ClampToEdge,
        address_w: AddressMode::ClampToEdge,
        filter: FilterMode::Linear,
        mipmap: FilterMode::Nearest,
        anisotropy: 1,
        comparison: false,
    }
}

/// A sampler that compares single texels of depth.
pub open spec fn compare_sampler() -> SamplerDesc {
    SamplerDesc { filter: FilterMode::Nearest, comparison: true, ..edge_sampler() }
}

/// A sampler that compares single texels of depth.
pub fn make_compare_sampler() -> (s: SamplerDesc)
    ensures
        s == compare_sampler(),
{
    let mut s = make_edge_sampler();
    s.filter = FilterMode::Nearest;
    s.comparison = true;
    s
}

/// A texture of half floats that is read, and drawn into or written by shaders.
pub open spec fn half_texture(
    width: u32,
    height: u32,
    layers: u32,
    view: ViewDimension,
    attachment: bool,
    storage: bool,
) -> TextureDesc {
    TextureDesc {
        width,
        height,
        layers,
        format: GpuFormat::Rgba16Float,
        usage: TextureUse { sampled: true, storage, attachment, copy_dst: false, copy_src: false },
        view,
    }
}

/// A texture of half floats that is read, and drawn into or written by shaders.
pub fn make_half_texture(
    width: u32,
    height: u32,
    layers: u32,
    view: ViewDimension,
    attachment: bool,
    storage: bool,
) -> (t: TextureDesc)
    ensures
        t == half_texture(width, height, layers, view, attachment, storage),
{
    TextureDesc {
        width,
        height,
        layers,
        format: GpuFormat::Rgba16Float,
        usage: TextureUse { sampled: true, storage, attachment, copy_dst: false, copy_src: false },
        view,
    }
}

/// A sampler at the edge ends there in every direction, blends texels of one level, and compares
/// nothing; one that compares looks at single texels and is else the same.
pub proof fn samplers_end_at_the_edge(compares: bool)
    ensures
        ({
            let s = if compares {
                compare_sampler()
            } else {
                edge_sampler()
            };
            &&& s.address_u == AddressMode::ClampToEdge
            &&& s.address_v == AddressMode::ClampToEdge
            &&& s.address_w == AddressMode::ClampToEdge
            &&& s.mipmap == FilterMode::Nearest
            &&& s.anisotropy == 1
            &&& s.comparison == compares
            &&& s.filter == FilterMode::Nearest <==> compares
        }),
{
}

/// A texture of half floats is as large as asked for, can be read, and is drawn into or written by
/// shaders exactly if that was asked for.
pub proof fn half_textures_are_as_asked(
    width: u32,
    height: u32,
    layers: u32,
    view: ViewDimension,
    attachment: bool,
    storage: bool,
)
    ensures
        ({
            let t = half_texture(width, height, layers, view, attachment, storage);
            &&& t.width == width && t.height == height && t.layers == layers
            &&& t.format == GpuFormat::Rgba16Float
            &&& t.view == view
            &&& t.usage.sampled
            &&& t.usage.attachment == attachment
            &&& t.usage.storage == storage
            &&& !t.usage.copy_dst && !t.usage.copy_src
        }),
{
}

/// Bindings are what they are said to be.
pub proof fn bindings_are_as_said(
    binding: u32,
    vertex: bool,
    fragment: bool,
    compute: bool,
    kind: BindingKind,
    resource: Resource,
)
    ensures
        ({
            let e = spec_entry(binding, spec_stages(vertex, fragment, compute), kind);
            &&& e.binding == binding
            &&& e.stages.vertex == vertex
            &&& e.stages.fragment == fragment
            &&& e.stages.compute == compute
            &&& e.kind == kind
            &&& e.count == 0
            &&& spec_bind(binding, resource).binding == binding
            &&& spec_bind(binding, resource).resource == resource
        }),
{
}

} // verus!
