use vstd::prelude::*;

verus! {

/// The alignment, in bytes, of every buffer copy and write.
pub open spec fn copy_alignment() -> nat {
    4
}

/// Relies on wgpu::COPY_BUFFER_ALIGNMENT, which wgpu defines as 4: the alignment that
/// buffer copies and queue writes require.
#[verifier::external_body]
fn copy_buffer_alignment() -> (r: u64)
    ensures
        r == copy_alignment(),
{
    wgpu::COPY_BUFFER_ALIGNMENT
}

/// `size` rounded up to the copy alignment, and never less than one alignment unit.
pub open spec fn padded_size(size: nat) -> nat {
    let a = copy_alignment();
    let up = ((size + a - 1) / a as int) * a;
    if up < a {
        a
    } else {
        up as nat
    }
}

/// Pads a byte size to the copy alignment, keeping it non-empty.
pub fn pad_to_copy_buffer_alignment(size: u64) -> (r: u64)
    requires
        size <= u64::MAX - 3,
    ensures
        r == padded_size(size as nat),
        r % 4 == 0,
        r >= size,
        r >= 4,
        r < size + 4 || size == 0,
{
    let align = copy_buffer_alignment();
    let up = (size + (align - 1)) / align * align;
    let r = if up < align {
        align
    } else {
        up
    };
    assert(r % 4 == 0 && r >= size && (r < size + 4 || size == 0)) by (nonlinear_arith)
        requires
            align == 4,
            up == ((size + 3) / 4) * 4,
            r == if up < 4 {
                4
            } else {
                up
            },
    ;
    r
}

/// The pipeline stages that can see a binding.
#[derive(Copy, Clone, Debug, PartialEq, Eq, Structural)]
pub struct StageMask {
    pub vertex: bool,
    pub fragment: bool,
    pub compute: bool,
}

/// How a buffer is bound: as a uniform, or as storage that is read only or read and written.
#[derive(Copy, Clone, Debug, PartialEq, Eq, Structural)]
pub enum UsageClass {
    Uniform,
    ReadOnlyStorage,
    ReadWriteStorage,
}

/// The uses a buffer is created for.
#[derive(Copy, Clone, Debug, PartialEq, Eq, Structural)]
pub struct BufferUsage {
    pub uniform: bool,
    pub storage: bool,
    pub copy_dst: bool,
}

/// One entry of a binding-group layout: a buffer at `binding`, visible to `visibility`,
/// bound as `class`, with at least `min_binding_size` bytes (none when that is 0).
#[derive(Copy, Clone, Debug, PartialEq, Eq, Structural)]
pub struct LayoutEntry {
    pub binding: u32,
    pub visibility: StageMask,
    pub class: UsageClass,
    pub min_binding_size: Option<u64>,
}

/// What a buffer is created with: a label, a size in bytes and its uses.
#[derive(Copy, Clone, Debug)]
pub struct BufferSpec {
    pub label: &'static str,
    pub size: u64,
    pub usage: BufferUsage,
}

/// A closed set of resource slots that share one binding group. Each slot gives its
/// element size, its binding index, its layout entry and the buffer it needs for a given
/// number of elements; both buffer creation and binding-group creation read them here.
pub trait LayoutEnum: Sized {
    /// Every slot, in binding order.
    spec fn spec_entries() -> Seq<Self>;

    /// Bytes per element.
    spec fn spec_size(&self) -> nat;

    /// The binding index.
    spec fn spec_binding(&self) -> u32;

    /// The layout entry.
    spec fn spec_layout_entry(&self) -> LayoutEntry;

    /// The label of the buffer.
    spec fn spec_label(&self) -> Seq<char>;

    /// The size in bytes of a buffer for `count` elements.
    spec fn spec_buffer_size(&self, count: nat) -> nat;

    /// The uses of the buffer.
    spec fn spec_usage(&self) -> BufferUsage;

    /// Every slot, in binding order: slot `i` has binding `i`, and every slot is listed.
    fn entries() -> (r: Vec<Self>)
        ensures
            r@ == Self::spec_entries(),
            forall|i: int| 0 <= i < r.len() ==> (#[trigger] r[i]).spec_binding() == i,
            forall|t: Self| #[trigger] Self::spec_entries().contains(t),
    ;

    /// Bytes per element, padded to the copy alignment.
    fn size(&self) -> (r: u64)
        ensures
            r == self.spec_size(),
            r % 4 == 0,
            r >= 4,
    ;

    /// The binding index of the slot.
    fn binding(&self) -> (r: u32)
        ensures
            r == self.spec_binding(),
    ;

    /// The layout entry of the slot.
    fn layout_entry(&self) -> (r: LayoutEntry)
        ensures
            r == self.spec_layout_entry(),
            r.binding == self.spec_binding(),
            r.min_binding_size == Some(self.spec_size() as u64),
    ;

    /// The buffer for `count` elements of the slot.
    fn buffer_descriptor(&self, count: u64) -> (r: BufferSpec)
        requires
            self.spec_buffer_size(count as nat) <= u64::MAX,
        ensures
            r.label@ == self.spec_label(),
            r.size == self.spec_buffer_size(count as nat),
            r.usage == self.spec_usage(),
    ;
}

/// The layout entry of a buffer at `binding` whose elements take `size` bytes.
pub fn buffer_layout_entry(binding: u32, size: u64, visibility: StageMask, class: UsageClass) -> (r:
    LayoutEntry)
    ensures
        r == (LayoutEntry {
            binding,
            visibility,
            class,
            min_binding_size: if size == 0 {
                None
            } else {
                Some(size)
            },
        }),
{
    LayoutEntry {
        binding,
        visibility,
        class,
        min_binding_size: if size == 0 {
            None
        } else {
            Some(size)
        },
    }
}

/// The layout entry of a buffer slot: its binding and element size with the given
/// visibility and usage class.
pub fn create_bind_group_layout_entry_buffer<T: LayoutEnum>(
    this: &T,
    visibility: StageMask,
    class: UsageClass,
) -> (r: LayoutEntry)
    ensures
        r == (LayoutEntry {
            binding: this.spec_binding(),
            visibility,
            class,
            min_binding_size: Some(this.spec_size() as u64),
        }),
{
    buffer_layout_entry(this.binding(), this.size(), visibility, class)
}

/// The layout entries of every slot of a group, in binding order.
pub fn layout_entries<T: LayoutEnum>() -> (r: Vec<LayoutEntry>)
    ensures
        r.len() == T::spec_entries().len(),
        forall|i: int|
            0 <= i < r.len() ==> #[trigger] r[i] == T::spec_entries()[i].spec_layout_entry(),
        forall|i: int| 0 <= i < r.len() ==> #[trigger] r[i].binding == i,
{
    let slots = T::entries();
    let mut out: Vec<LayoutEntry> = Vec::new();
    let mut i: usize = 0;
    while i < slots.len()
        invariant
            i <= slots.len(),
            slots@ == T::spec_entries(),
            forall|k: int| 0 <= k < slots.len() ==> (#[trigger] slots[k]).spec_binding() == k,
            out.len() == i,
            forall|k: int| 0 <= k < i ==> #[trigger] out[k] == slots[k].spec_layout_entry(),
            forall|k: int| 0 <= k < i ==> #[trigger] out[k].binding == k,
        decreases slots.len() - i,
    {
        out.push(slots[i].layout_entry());
        i = i + 1;
    }
    out
}

/// Identifies a device among those a render context has opened.
#[derive(Copy, Clone, Debug, PartialEq, Eq, Structural)]
pub struct DeviceId(pub usize);

impl DeviceId {
    /// The position of the device in its context.
    pub fn index(&self) -> (r: usize)
        ensures
            r == self.0,
    {
        self.0
    }
}

/// The viewport of a render target, in pixels.
#[derive(Copy, Clone, Debug, PartialEq, Eq, Structural)]
pub struct TargetData {
    pub vp_x: i32,
    pub vp_y: i32,
    pub vp_width: u32,
    pub vp_height: u32,
}

} // verus!
