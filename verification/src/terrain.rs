use crate::buffers::Growable;
use crate::desc::{
    bind, entry, spec_bind, spec_entry, spec_stages, stages, AddressMode, BindEntry, BindGroupDesc,
    BindingKind, BufferDesc, BufferUse, ColorTarget, DepthCompare, DepthDesc, FilterMode, GpuFormat,
    LayoutEntry, RenderPipelineDesc, Resource, ResourcePlan, SampleType, SamplerDesc, TextureDesc,
    TextureUse, ViewDimension,
};
use vstd::prelude::*;

verus! {

/// How many textures the ground is drawn with at most.
pub const TERRAIN_MAX_GROUND_LAYERS: u32 = 512;

/// Bytes of the ground's parameters, and of one of its nodes, on the device.
pub const TERRAIN_PARAMS_SIZE: u64 = 32;

pub const TERRAIN_NODE_SIZE: u64 = 24;

/// Nodes there is room for at first.
pub const TERRAIN_FIRST_NODES: u64 = 64;

/// Which map of the ground.
#[derive(Clone, Copy, Debug, PartialEq, Eq, Structural)]
pub enum GroundMap {
    /// One number for each point.
    Height,
    /// One texture for each cell.
    Index,
    /// Two small offsets for each point.
    Jitter,
}

/// Values that a map holds for each texel.
pub open spec fn values_per_texel(map: GroundMap) -> int {
    if map == GroundMap::Jitter {
        2
    } else {
        1
    }
}

/// Bytes that a texel of a map takes.
pub open spec fn texel_bytes(map: GroundMap) -> int {
    if map == GroundMap::Height {
        4
    } else {
        2
    }
}

/// The format of a map.
pub open spec fn map_format(map: GroundMap) -> GpuFormat {
    match map {
        GroundMap::Height => GpuFormat::R32Float,
        GroundMap::Index => GpuFormat::R16Uint,
        GroundMap::Jitter => GpuFormat::Rg8Snorm,
    }
}

/// A map to be made and written.
#[derive(Clone, Copy, Debug, PartialEq, Eq, Structural)]
pub struct MapUpload {
    pub texture: TextureDesc,
    pub bytes_per_row: u32,
    /// How many of the values are written, from the first.
    pub values: usize,
}

/// A texture that is written by the processor and read.
pub open spec fn filled_texture(width: u32, height: u32, format: GpuFormat) -> TextureDesc {
    TextureDesc {
        width,
        height,
        layers: 1,
        format,
        usage: TextureUse {
            sampled: true,
            storage: false,
            attachment: false,
            copy_dst: true,
            copy_src: false,
        },
        view: ViewDimension::D2,
    }
}

/// A texture that is written by the processor and read.
pub fn make_filled_texture(width: u32, height: u32, format: GpuFormat) -> (t: TextureDesc)
    ensures
        t == filled_texture(width, height, format),
{
    TextureDesc {
        width,
        height,
        layers: 1,
        format,
        usage: TextureUse {
            sampled: true,
            storage: false,
            attachment: false,
            copy_dst: true,
            copy_src: false,
        },
        view: ViewDimension::D2,
    }
}

/// The bit of a cell's index that says that its texture is drawn without repeating.
pub const CLAMPED_TILE: u16 = 0x8000;

/// The layer that a cell's index names: the index without its upper bit.
pub open spec fn layer_of(index: u16) -> int {
    (index % CLAMPED_TILE) as int
}

/// Whether a cell's texture is drawn without repeating.
pub open spec fn is_clamped_tile(index: u16) -> bool {
    index >= CLAMPED_TILE
}

/// A cell's index with the nearest layer that there is room for.
pub open spec fn clamped_index(index: u16) -> u16 {
    if layer_of(index) < TERRAIN_MAX_GROUND_LAYERS {
        index
    } else {
        (index - layer_of(index) + TERRAIN_MAX_GROUND_LAYERS - 1) as u16
    }
}

/// Cell indices as they are uploaded.
pub open spec fn clamped_indices(indices: Seq<u16>) -> Seq<u16> {
    Seq::new(indices.len(), |i: int| clamped_index(indices[i]))
}

/// Keeps the layer of each cell to those there is room for.
pub fn clamp_indices(indices: &[u16]) -> (out: Vec<u16>)
    ensures
        out@ == clamped_indices(indices@),
{
    let mut out: Vec<u16> = Vec::new();
    let mut i: usize = 0;
    while i < indices.len()
        invariant
            i <= indices@.len(),
            out@.len() == i,
            forall|j: int| 0 <= j < i ==> #[trigger] out@[j] == clamped_index(indices@[j]),
        decreases indices@.len() - i,
    {
        let index: u16 = indices[i];
        let layer: u16 = index % CLAMPED_TILE;
        out.push(
            if (layer as u32) < TERRAIN_MAX_GROUND_LAYERS {
                index
            } else {
                index - layer + (TERRAIN_MAX_GROUND_LAYERS as u16 - 1)
            },
        );
        i = i + 1;
    }
    assert(out@ =~= clamped_indices(indices@));
    out
}

/// An uploaded index names a layer there is room for, keeps its upper bit, and differs from the
/// one given only where there is no room for its layer.
pub proof fn uploaded_layers_have_room(indices: Seq<u16>, i: int)
    requires
        0 <= i < indices.len(),
    ensures
        clamped_indices(indices).len() == indices.len(),
        layer_of(clamped_indices(indices)[i]) < TERRAIN_MAX_GROUND_LAYERS,
        is_clamped_tile(clamped_indices(indices)[i]) == is_clamped_tile(indices[i]),
        layer_of(indices[i]) < TERRAIN_MAX_GROUND_LAYERS ==> clamped_indices(indices)[i]
            == indices[i],
{
}

/// The ground.
pub struct Terrain {
    /// A height map is loaded.
    pub have_heightmap: bool,
    /// The textures the ground is drawn with; zero shows white.
    pub ground_layers: Vec<u64>,
    /// Arrays of textures need not be filled.
    pub partially_bound: bool,
    pub instances: Growable,
    pub instance_count: u32,
    /// The largest side of a texture.
    pub max_dim: u32,
}

impl Terrain {
    /// There is at least one layer and not too many, and a row of a map can be counted in bytes.
    pub open spec fn wf(&self) -> bool {
        &&& 1 <= self.ground_layers@.len() <= TERRAIN_MAX_GROUND_LAYERS
        &&& self.max_dim <= 0x3fff_ffff
    }

    /// No map is loaded, and the ground is white.
    pub fn new(partially_bound: bool, max_dim: u32) -> (t: Terrain)
        requires
            max_dim <= 0x3fff_ffff,
        ensures
            t.wf(),
            !t.have_heightmap,
            t.ground_layers@ == seq![0u64],
            t.partially_bound == partially_bound,
            t.instances == (Growable {
                cap: (TERRAIN_FIRST_NODES * TERRAIN_NODE_SIZE) as u64,
                exists: true,
            }),
            t.instance_count == 0,
            t.max_dim == max_dim,
    {
        Terrain {
            have_heightmap: false,
            ground_layers: vec![0u64],
            partially_bound,
            instances: Growable { cap: TERRAIN_FIRST_NODES * TERRAIN_NODE_SIZE, exists: true },
            instance_count: 0,
            max_dim,
        }
    }

    /// A map of the size is taken, with that many values.
    pub open spec fn takes(&self, map: GroundMap, width: u32, height: u32, values: int) -> bool {
        0 < width <= self.max_dim && 0 < height <= self.max_dim && values_per_texel(map) * (width
            * height) <= values
    }

    /// The map that is made of `values` values.
    pub open spec fn map_upload(
        &self,
        map: GroundMap,
        width: u32,
        height: u32,
        values: int,
    ) -> Option<MapUpload> {
        if self.takes(map, width, height, values) {
            Some(
                MapUpload {
                    texture: filled_texture(width, height, map_format(map)),
                    bytes_per_row: (width * texel_bytes(map)) as u32,
                    values: (values_per_texel(map) * (width * height)) as usize,
                },
            )
        } else {
            None
        }
    }

    fn plan_map(&self, map: GroundMap, width: u32, height: u32, values: usize) -> (up: Option<
        MapUpload,
    >)
        requires
            self.wf(),
        ensures
            up == self.map_upload(map, width, height, values as int),
    {
        if width == 0 || height == 0 || width > self.max_dim || height > self.max_dim {
            return None;
        }
        proof {
            assert(width * height <= 0x3fff_ffff * 0x3fff_ffff) by (nonlinear_arith)
                requires
                    width <= 0x3fff_ffff,
                    height <= 0x3fff_ffff,
            ;
        }
        let texels: u64 = width as u64 * height as u64;
        let (format, per_texel, bytes): (GpuFormat, u64, u32) = match map {
            GroundMap::Height => (GpuFormat::R32Float, 1, 4),
            GroundMap::Index => (GpuFormat::R16Uint, 1, 2),
            GroundMap::Jitter => (GpuFormat::Rg8Snorm, 2, 2),
        };
        let needed: u64 = per_texel * texels;
        if (values as u64) < needed {
            return None;
        }
        Some(
            MapUpload {
                texture: make_filled_texture(width, height, format),
                bytes_per_row: width * bytes,
                values: needed as usize,
            },
        )
    }

    /// Loads the height map; one that has no extent, is too large, or lacks values is left alone.
    pub fn set_heightmap(&mut self, width: u32, height: u32, heights: usize) -> (up: Option<
        MapUpload,
    >)
        requires
            old(self).wf(),
        ensures
            final(self).wf(),
            up == old(self).map_upload(GroundMap::Height, width, height, heights as int),
            *final(self) == (Terrain {
                have_heightmap: old(self).have_heightmap || up is Some,
                ..*old(self)
            }),
    {
        let up = self.plan_map(GroundMap::Height, width, height, heights);
        if up.is_some() {
            self.have_heightmap = true;
        }
        up
    }

    /// Loads the map of textures, and gives what is written into it; one that does not fit is
    /// left alone.
    pub fn set_index_map(&self, width: u32, height: u32, indices: &[u16]) -> (up: Option<
        (MapUpload, Vec<u16>),
    >)
        requires
            self.wf(),
        ensures
            match self.map_upload(GroundMap::Index, width, height, indices@.len() as int) {
                Some(map) => up matches Some(u) && u.0 == map && u.1@ == clamped_indices(
                    indices@.take(map.values as int),
                ),
                None => up is None,
            },
    {
        match self.plan_map(GroundMap::Index, width, height, indices.len()) {
            Some(map) => {
                let cells = vstd::slice::slice_subrange(indices, 0, map.values);
                proof {
                    assert(cells@ =~= indices@.take(map.values as int));
                }
                Some((map, clamp_indices(cells)))
            },
            None => None,
        }
    }

    /// Loads the map of offsets; one that does not fit is left alone.
    pub fn set_jitter_map(&self, width: u32, height: u32, offsets: usize) -> (up: Option<MapUpload>)
        requires
            self.wf(),
        ensures
            up == self.map_upload(GroundMap::Jitter, width, height, offsets as int),
    {
        self.plan_map(GroundMap::Jitter, width, height, offsets)
    }

    /// Sets the textures of the ground: as many as there is room for, and white if there are none.
    pub fn set_ground_layers(&mut self, handles: &[u64])
        requires
            old(self).wf(),
        ensures
            final(self).wf(),
            *final(self) == (Terrain { ground_layers: final(self).ground_layers, ..*old(self) }),
            final(self).ground_layers@ == if handles@.len() == 0 {
                seq![0u64]
            } else if handles@.len() <= TERRAIN_MAX_GROUND_LAYERS {
                handles@
            } else {
                handles@.take(TERRAIN_MAX_GROUND_LAYERS as int)
            },
    {
        let mut layers: Vec<u64> = Vec::new();
        let mut i: usize = 0;
        while i < handles.len() && i < TERRAIN_MAX_GROUND_LAYERS as usize
            invariant
                i <= handles@.len(),
                i <= TERRAIN_MAX_GROUND_LAYERS,
                layers@ == handles@.take(i as int),
            decreases handles@.len() - i,
        {
            layers.push(handles[i]);
            proof {
                assert(handles@.take(i as int).push(handles@[i as int]) =~= handles@.take(i + 1));
            }
            i = i + 1;
        }
        if layers.len() == 0 {
            layers.push(0);
            proof {
                assert(layers@ =~= seq![0u64]);
            }
        } else {
            proof {
                if handles@.len() <= TERRAIN_MAX_GROUND_LAYERS {
                    assert(handles@.take(i as int) =~= handles@);
                }
            }
        }
        self.ground_layers = layers;
    }

    /// The layers as they are bound: where every place has to be filled, the rest is white.
    pub open spec fn bound_layers(&self) -> Seq<u64> {
        if self.partially_bound {
            self.ground_layers@
        } else {
            Seq::new(
                TERRAIN_MAX_GROUND_LAYERS as nat,
                |i: int|
                    if i < self.ground_layers@.len() {
                        self.ground_layers@[i]
                    } else {
                        0
                    },
            )
        }
    }

    /// The layers as they are bound.
    pub fn make_group2(&self) -> (layers: Vec<u64>)
        requires
            self.wf(),
        ensures
            layers@ == self.bound_layers(),
    {
        let n: usize = if self.partially_bound {
            self.ground_layers.len()
        } else {
            TERRAIN_MAX_GROUND_LAYERS as usize
        };
        let mut layers: Vec<u64> = Vec::new();
        let mut i: usize = 0;
        while i < n
            invariant
                i <= n,
                n == self.bound_layers().len(),
                layers@ == self.bound_layers().take(i as int),
            decreases n - i,
        {
            let layer: u64 = if i < self.ground_layers.len() {
                self.ground_layers[i]
            } else {
                0
            };
            layers.push(layer);
            proof {
                let all = self.bound_layers();
                assert(all[i as int] == layer);
                assert(all.take(i as int).push(layer) =~= all.take(i + 1));
            }
            i = i + 1;
        }
        proof {
            assert(self.bound_layers().take(n as int) =~= self.bound_layers());
        }
        layers
    }

    /// The detail texture to show, unless there is none.
    pub fn set_detail_layer(&self, handle: u64) -> (shown: Option<u64>)
        ensures
            shown == if handle == 0 {
                None
            } else {
                Some(handle)
            },
    {
        if handle == 0 {
            None
        } else {
            Some(handle)
        }
    }

    /// Makes room for this frame's nodes; true if their buffer has to be made anew.
    pub fn prepare(&mut self, nodes: usize) -> (grew: bool)
        requires
            old(self).wf(),
            nodes <= u32::MAX,
        ensures
            final(self).wf(),
            *final(self) == (Terrain {
                instance_count: nodes as u32,
                instances: if nodes > 0 {
                    old(self).instances.after(nodes * TERRAIN_NODE_SIZE, 0)
                } else {
                    old(self).instances
                },
                ..*old(self)
            }),
            grew == (nodes > 0 && !old(self).instances.fits(nodes * TERRAIN_NODE_SIZE)),
    {
        self.instance_count = nodes as u32;
        if nodes == 0 {
            return false;
        }
        self.instances.ensure(nodes as u64 * TERRAIN_NODE_SIZE, 0)
    }

    /// The nodes that a batch draws, the end left out; none before a height map is loaded, and
    /// none if any of them is not there.
    pub fn draw(&self, first_node: u32, node_count: u32) -> (range: Option<(u32, u32)>)
        requires
            self.have_heightmap && node_count != 0 ==> first_node + node_count <= u32::MAX,
        ensures
            range == if self.have_heightmap && node_count != 0 && first_node + node_count
                <= self.instance_count {
                Some((first_node, (first_node + node_count) as u32))
            } else {
                None
            },
    {
        if !self.have_heightmap || node_count == 0 {
            return None;
        }
        if first_node + node_count > self.instance_count {
            return None;
        }
        Some((first_node, first_node + node_count))
    }
}

/// A map that is taken has a value for every texel, and its rows follow each other without gaps.
pub proof fn maps_are_filled(t: Terrain, map: GroundMap, width: u32, height: u32, values: usize)
    requires
        t.wf(),
        t.map_upload(map, width, height, values as int) is Some,
    ensures
        ({
            let up = t.map_upload(map, width, height, values as int)->0;
            &&& up.values <= values
            &&& up.values == values_per_texel(map) * (up.texture.width * up.texture.height)
            &&& up.bytes_per_row == up.texture.width * texel_bytes(map)
            &&& up.texture.width <= t.max_dim && up.texture.height <= t.max_dim
        }),
{
    assert(values_per_texel(map) * (width * height) >= 0) by (nonlinear_arith)
        requires
            values_per_texel(map) >= 1,
            width >= 0,
            height >= 0,
    ;
}

/// What the ground binds to be put in place: its parameters and the height map.
pub open spec fn terrain_group1_layout() -> Seq<LayoutEntry> {
    seq![
        spec_entry(
            0,
            spec_stages(true, true, false),
            BindingKind::Uniform { dynamic: false, min_size: TERRAIN_PARAMS_SIZE },
        ),
        spec_entry(
            1,
            spec_stages(true, true, false),
            BindingKind::Texture { sample: SampleType::Unfilterable, view: ViewDimension::D2 },
        ),
    ]
}

/// A binding of the ground's looks.
pub open spec fn look_entry(binding: u32, kind: BindingKind) -> LayoutEntry {
    spec_entry(binding, spec_stages(false, true, false), kind)
}

/// A texture of the ground's looks.
pub open spec fn look_texture(sample: SampleType) -> BindingKind {
    BindingKind::Texture { sample, view: ViewDimension::D2 }
}

/// What the ground binds for its looks: all its textures, how they are read, the map of
/// textures, the detail, how it is read at edges, and the map of offsets.
pub open spec fn terrain_group2_layout() -> Seq<LayoutEntry> {
    seq![
        LayoutEntry {
            count: TERRAIN_MAX_GROUND_LAYERS,
            ..look_entry(0, look_texture(SampleType::Filterable))
        },
        look_entry(1, BindingKind::Sampler { comparison: false }),
        look_entry(2, look_texture(SampleType::Uint)),
        look_entry(3, look_texture(SampleType::Filterable)),
        look_entry(4, BindingKind::Sampler { comparison: false }),
        look_entry(5, look_texture(SampleType::Filterable)),
    ]
}

/// A sharp sampler of the ground.
pub open spec fn ground_sampler(address: AddressMode) -> SamplerDesc {
    SamplerDesc {
        address_u: address,
        address_v: address,
        address_w: AddressMode::ClampToEdge,
        filter: FilterMode::Linear,
        mipmap: FilterMode::Linear,
        anisotropy: 16,
        comparison: false,
    }
}

fn make_ground_sampler(address: AddressMode) -> (s: SamplerDesc)
    ensures
        s == ground_sampler(address),
{
    SamplerDesc {
        address_u: address,
        address_v: address,
        address_w: AddressMode::ClampToEdge,
        filter: FilterMode::Linear,
        mipmap: FilterMode::Linear,
        anisotropy: 16,
        comparison: false,
    }
}

/// How the ground's groups are filled until maps are loaded. The array of textures is lent.
pub open spec fn terrain_group1() -> Seq<BindEntry> {
    seq![spec_bind(0, Resource::Buffer(0)), spec_bind(1, Resource::Texture(0))]
}

pub open spec fn terrain_group2() -> Seq<BindEntry> {
    seq![
        spec_bind(0, Resource::Lent),
        spec_bind(1, Resource::Sampler(0)),
        spec_bind(2, Resource::Texture(1)),
        spec_bind(3, Resource::Texture(2)),
        spec_bind(4, Resource::Sampler(1)),
        spec_bind(5, Resource::Texture(3)),
    ]
}

fn make_look_entry(binding: u32, kind: BindingKind) -> (e: LayoutEntry)
    ensures
        e == look_entry(binding, kind),
{
    entry(binding, stages(false, true, false), kind)
}

fn make_look_texture(sample: SampleType) -> (k: BindingKind)
    ensures
        k == look_texture(sample),
{
    BindingKind::Texture { sample, view: ViewDimension::D2 }
}

/// What the ground makes at its start: stand-ins of a single texel for its maps.
pub fn terrain_resources() -> (plan: ResourcePlan)
    ensures
        plan.wf(),
        plan.buffers@ == seq![BufferDesc { size: TERRAIN_PARAMS_SIZE, usage: BufferUse::Uniform }],
        plan.textures@ == seq![
            filled_texture(1, 1, GpuFormat::R32Float),
            filled_texture(1, 1, GpuFormat::R16Uint),
            filled_texture(1, 1, GpuFormat::Rgba8Unorm),
            filled_texture(1, 1, GpuFormat::Rg8Snorm),
        ],
        plan.samplers@ == seq![
            ground_sampler(AddressMode::Repeat),
            ground_sampler(AddressMode::ClampToEdge),
        ],
        plan.layouts@.len() == 2,
        plan.layouts@[0]@ == terrain_group1_layout(),
        plan.layouts@[1]@ == terrain_group2_layout(),
        plan.groups@.len() == 2,
        plan.groups@[0].layout == 0,
        plan.groups@[0].entries@ == terrain_group1(),
        plan.groups@[1].layout == 1,
        plan.groups@[1].entries@ == terrain_group2(),
{
    let place: Vec<LayoutEntry> = vec![
        entry(
            0,
            stages(true, true, false),
            BindingKind::Uniform { dynamic: false, min_size: TERRAIN_PARAMS_SIZE },
        ),
        entry(
            1,
            stages(true, true, false),
            BindingKind::Texture { sample: SampleType::Unfilterable, view: ViewDimension::D2 },
        ),
    ];
    let mut layers: LayoutEntry = make_look_entry(0, make_look_texture(SampleType::Filterable));
    layers.count = TERRAIN_MAX_GROUND_LAYERS;
    let looks: Vec<LayoutEntry> = vec![
        layers,
        make_look_entry(1, BindingKind::Sampler { comparison: false }),
        make_look_entry(2, make_look_texture(SampleType::Uint)),
        make_look_entry(3, make_look_texture(SampleType::Filterable)),
        make_look_entry(4, BindingKind::Sampler { comparison: false }),
        make_look_entry(5, make_look_texture(SampleType::Filterable)),
    ];
    let place_group: Vec<BindEntry> = vec![
        bind(0, Resource::Buffer(0)),
        bind(1, Resource::Texture(0)),
    ];
    let looks_group: Vec<BindEntry> = vec![
        bind(0, Resource::Lent),
        bind(1, Resource::Sampler(0)),
        bind(2, Resource::Texture(1)),
        bind(3, Resource::Texture(2)),
        bind(4, Resource::Sampler(1)),
        bind(5, Resource::Texture(3)),
    ];
    proof {
        assert(place@ =~= terrain_group1_layout());
        assert(looks@ =~= terrain_group2_layout());
        assert(place_group@ =~= terrain_group1());
        assert(looks_group@ =~= terrain_group2());
    }
    let mut layouts: Vec<Vec<LayoutEntry>> = Vec::new();
    layouts.push(place);
    layouts.push(looks);
    let mut groups: Vec<BindGroupDesc> = Vec::new();
    groups.push(BindGroupDesc { layout: 0, entries: place_group });
    groups.push(BindGroupDesc { layout: 1, entries: looks_group });
    ResourcePlan {
        buffers: vec![BufferDesc { size: TERRAIN_PARAMS_SIZE, usage: BufferUse::Uniform }],
        textures: vec![
            make_filled_texture(1, 1, GpuFormat::R32Float),
            make_filled_texture(1, 1, GpuFormat::R16Uint),
            make_filled_texture(1, 1, GpuFormat::Rgba8Unorm),
            make_filled_texture(1, 1, GpuFormat::Rg8Snorm),
        ],
        samplers: vec![
            make_ground_sampler(AddressMode::Repeat),
            make_ground_sampler(AddressMode::ClampToEdge),
        ],
        layouts,
        groups,
    }
}

/// How the ground is drawn: from both sides, hiding what is behind it.
pub fn terrain_pipeline(scene_is_linear: bool) -> (p: RenderPipelineDesc)
    ensures
        p == (RenderPipelineDesc {
            target: ColorTarget::Scene,
            blend: None,
            depth: Some(DepthDesc { write: true, compare: DepthCompare::GreaterEqual }),
            cull_back: false,
            linear: scene_is_linear,
        }),
{
    RenderPipelineDesc {
        target: ColorTarget::Scene,
        blend: None,
        depth: Some(DepthDesc { write: true, compare: DepthCompare::GreaterEqual }),
        cull_back: false,
        linear: scene_is_linear,
    }
}

/// The texture of a cell is kept if it is one of the first five hundred and twelve, and else is the
/// last of those; whether it repeats stays as it was.
pub proof fn cells_keep_their_textures(indices: Seq<u16>, i: int)
    requires
        0 <= i < indices.len(),
    ensures
        ({
            let (was, is) = (indices[i], clamped_indices(indices)[i]);
            &&& is / 0x8000 == was / 0x8000
            &&& was % 0x8000 < 512 ==> is == was
            &&& was % 0x8000 >= 512 ==> is % 0x8000 == 511
        }),
{
}

/// A map is taken exactly if it has an area that a texture can have and a value for every texel, or
/// two where they are offsets. It is then as large as it was asked for, and holds four bytes for a
/// height, and two for a texture or for a pair of offsets.
pub proof fn maps_are_taken_whole(
    t: Terrain,
    map: GroundMap,
    width: u32,
    height: u32,
    values: usize,
)
    requires
        t.wf(),
    ensures
        ({
            let needed = if map == GroundMap::Jitter {
                2 * (width * height)
            } else {
                width * height
            };
            let up = t.map_upload(map, width, height, values as int);
            &&& up is Some <==> 0 < width <= t.max_dim && 0 < height <= t.max_dim && needed
                <= values
            &&& up matches Some(u) ==> {
                &&& u.values == needed
                &&& u.texture.width == width
                &&& u.texture.height == height
                &&& u.texture.layers == 1
                &&& u.texture.usage.sampled && u.texture.usage.copy_dst
                &&& u.texture.view == ViewDimension::D2
                &&& map == GroundMap::Height <==> u.texture.format == GpuFormat::R32Float
                &&& map == GroundMap::Index <==> u.texture.format == GpuFormat::R16Uint
                &&& map == GroundMap::Jitter <==> u.texture.format == GpuFormat::Rg8Snorm
                &&& map == GroundMap::Height ==> u.bytes_per_row == 4 * width
                &&& map != GroundMap::Height ==> u.bytes_per_row == 2 * width
            }
        }),
{
    assert(width * height >= 0) by (nonlinear_arith)
        requires
            width >= 0,
            height >= 0,
    ;
}

/// The textures of the ground are bound in their order, and white behind them where every place
/// has to be filled.
pub proof fn layers_are_bound_in_order(t: Terrain, i: int)
    requires
        t.wf(),
        0 <= i < t.bound_layers().len(),
    ensures
        t.partially_bound ==> t.bound_layers().len() == t.ground_layers@.len(),
        !t.partially_bound ==> t.bound_layers().len() == 512,
        i < t.ground_layers@.len() ==> t.bound_layers()[i] == t.ground_layers@[i],
        i >= t.ground_layers@.len() ==> t.bound_layers()[i] == 0,
{
}

/// The ground's bindings are in the order of their numbers. Heights are read where it is put in
/// place, everything else where it is coloured; only its textures are many.
pub proof fn the_ground_is_bound_in_order(b: int)
    requires
        0 <= b < 6,
    ensures
        terrain_group1_layout().len() == 2,
        terrain_group2_layout().len() == 6,
        b < 2 ==> ({
            let e = terrain_group1_layout()[b];
            e.binding == b && e.stages.vertex && !e.stages.compute && e.count == 0 && (b == 0 <==>
                e.kind is Uniform) && (b == 1 <==> e.kind is Texture)
        }),
        ({
            let e = terrain_group2_layout()[b];
            &&& e.binding == b
            &&& e.stages.fragment && !e.stages.vertex && !e.stages.compute
            &&& b == 0 ==> e.count == 512
            &&& b != 0 ==> e.count == 0
            &&& b == 1 || b == 4 <==> e.kind is Sampler
            &&& e.kind matches BindingKind::Texture { sample, view } ==> view == ViewDimension::D2
                && (sample == SampleType::Uint <==> b == 2) && (sample == SampleType::Filterable
                <==> b != 2)
        }),
{
}

/// The ground's textures are read sharply, and repeat or end at the edge in both directions.
pub proof fn ground_samplers_are_sharp(address: AddressMode)
    ensures
        ground_sampler(address).address_u == address,
        ground_sampler(address).address_v == address,
        ground_sampler(address).filter == FilterMode::Linear,
        ground_sampler(address).mipmap == FilterMode::Linear,
        ground_sampler(address).anisotropy == 16,
        !ground_sampler(address).comparison,
{
}

/// Until maps are loaded the ground is bound with stand-ins: for heights, for the map of textures,
/// for the detail and for offsets, each at its own binding. Textures repeat, and the detail ends at
/// its edge. Only the textures themselves are lent.
pub proof fn the_ground_has_stand_ins(b: int)
    requires
        0 <= b < 6,
    ensures
        terrain_group1().len() == 2,
        terrain_group1()[0].binding == 0 && terrain_group1()[0].resource == Resource::Buffer(0),
        terrain_group1()[1].binding == 1 && terrain_group1()[1].resource == Resource::Texture(0),
        terrain_group2().len() == 6,
        terrain_group2()[b].binding == b,
        terrain_group2()[b].resource == Resource::Lent <==> b == 0,
        terrain_group2()[b].resource == Resource::Sampler(0) <==> b == 1,
        terrain_group2()[b].resource == Resource::Texture(1) <==> b == 2,
        terrain_group2()[b].resource == Resource::Texture(2) <==> b == 3,
        terrain_group2()[b].resource == Resource::Sampler(1) <==> b == 4,
        terrain_group2()[b].resource == Resource::Texture(3) <==> b == 5,
{
}

/// A texture that is filled is as large as asked for, has one layer, and is written by the
/// processor and read; and nothing else.
pub proof fn filled_textures_are_as_asked(width: u32, height: u32, format: GpuFormat)
    ensures
        ({
            let t = filled_texture(width, height, format);
            &&& t.width == width && t.height == height && t.layers == 1
            &&& t.format == format
            &&& t.view == ViewDimension::D2
            &&& t.usage.sampled && t.usage.copy_dst
            &&& !t.usage.storage && !t.usage.attachment && !t.usage.copy_src
        }),
{
}

} // verus!
