use vstd::prelude::*;

use crate::Int2;

verus! {

/// The rendering shape of an item: all variants share the same descriptor
/// layout, they only select how the renderer draws the item.
#[derive(Clone, Copy, Debug, PartialEq, Eq, Structural)]
pub enum ItemType {
    Air,
    BlockCube,
    BlockCross,
    UserItem,
}

/// A texture coordinate in normalized atlas space, held exactly as a pair of
/// fractions: u = u_num / u_den and v = v_num / v_den. The renderer divides
/// when it uploads the value.
#[derive(Clone, Copy, Debug, PartialEq, Eq, Structural)]
pub struct UvCoord {
    pub u_num: i32,
    pub u_den: i32,
    pub v_num: i32,
    pub v_den: i32,
}

impl UvCoord {
    /// Both components lie in the unit interval [0, 1].
    pub open spec fn in_unit_square(&self) -> bool {
        &&& 0 < self.u_den
        &&& 0 <= self.u_num <= self.u_den
        &&& 0 < self.v_den
        &&& 0 <= self.v_num <= self.v_den
    }
}

/// The four UV corners (bottom-left, bottom-right, top-left, top-right) of
/// one cell of a texture atlas.
#[derive(Clone, Copy, Debug, PartialEq, Eq, Structural)]
pub struct TextureCoordinates {
    pub bl: UvCoord,
    pub br: UvCoord,
    pub tl: UvCoord,
    pub tr: UvCoord,
}

impl TextureCoordinates {
    /// Computes the UV corners of cell `position` in an atlas of `count`
    /// cells per axis. The v-axis is inverted: `position.y == 0` addresses
    /// the top row of the atlas image (top-left-origin convention).
    pub fn extract_coordinates(count: Int2, position: Int2) -> (r: TextureCoordinates)
        requires
            count.x > 0,
            count.y > 0,
            0 <= position.x < count.x,
            0 <= position.y < count.y,
        ensures
            r.bl == (UvCoord {
                u_num: position.x,
                u_den: count.x,
                v_num: (position.y + 1) as i32,
                v_den: count.y,
            }),
            r.br == (UvCoord {
                u_num: (position.x + 1) as i32,
                u_den: count.x,
                v_num: (position.y + 1) as i32,
                v_den: count.y,
            }),
            r.tr == (UvCoord {
                u_num: (position.x + 1) as i32,
                u_den: count.x,
                v_num: position.y,
                v_den: count.y,
            }),
            r.tl == (UvCoord {
                u_num: position.x,
                u_den: count.x,
                v_num: position.y,
                v_den: count.y,
            }),
            r.bl.in_unit_square(),
            r.br.in_unit_square(),
            r.tr.in_unit_square(),
            r.tl.in_unit_square(),
    {
        TextureCoordinates {
            bl: UvCoord {
                u_num: position.x,
                u_den: count.x,
                v_num: (position.y + 1) as i32,
                v_den: count.y,
            },
            br: UvCoord {
                u_num: (position.x + 1) as i32,
                u_den: count.x,
                v_num: (position.y + 1) as i32,
                v_den: count.y,
            },
            tr: UvCoord {
                u_num: (position.x + 1) as i32,
                u_den: count.x,
                v_num: position.y,
                v_den: count.y,
            },
            tl: UvCoord {
                u_num: position.x,
                u_den: count.x,
                v_num: position.y,
                v_den: count.y,
            },
        }
    }
}

/// The descriptor of one item or material: its rendering shape, transparency
/// and inventory flags, name, and the atlas cells of its three face textures.
#[derive(Clone, Debug)]
pub struct ItemInfo {
    pub item_type: ItemType,
    pub is_transparent: bool,
    pub show_in_inventory: bool,
    pub name: String,
    pub top_tex_coords: TextureCoordinates,
    pub side_tex_coords: TextureCoordinates,
    pub bottom_tex_coords: TextureCoordinates,
}

/// An append-only registry of item descriptors. An item's integer id is its
/// position in insertion order; nothing is ever removed or reordered, so ids
/// are stable for the life of the process.
pub struct ItemManager {
    items: Vec<ItemInfo>,
}

impl ItemManager {
    /// The registered descriptors, in insertion order.
    pub closed spec fn spec_items(&self) -> Seq<ItemInfo> {
        self.items@
    }

    /// Creates an empty ItemManager.
    pub fn new() -> (r: ItemManager)
        ensures
            r.spec_items() == Seq::<ItemInfo>::empty(),
    {
        ItemManager { items: Vec::new() }
    }

    /// Inserts a new item into the ItemManager; its id is the registry's
    /// size before the insertion.
    pub fn put_new_item(&mut self, item: ItemInfo)
        ensures
            final(self).spec_items() == old(self).spec_items().push(item),
    {
        self.items.push(item);
    }

    /// Gets item info from id. Absence is a normal outcome: the result is
    /// `None` exactly when `id` is negative or at least the registry's size.
    pub fn get_item_by_id(&self, id: i32) -> (r: Option<&ItemInfo>)
        ensures
            match r {
                Some(info) => 0 <= id < self.spec_items().len()
                    && *info == self.spec_items()[id as int],
                None => !(0 <= id < self.spec_items().len()),
            },
    {
        if id >= 0 && (id as usize) < self.items.len() {
            Some(&self.items[id as usize])
        } else {
            None
        }
    }

    /// Gets item id from name: a linear scan in insertion order that returns
    /// the first match, or `None` when no item carries the name.
    pub fn get_id_by_name(&self, name: String) -> (r: Option<i32>)
        requires
            self.spec_items().len() <= i32::MAX,
        ensures
            match r {
                Some(id) => 0 <= id < self.spec_items().len()
                    && self.spec_items()[id as int].name@ == name@
                    && (forall|j: int|
                        0 <= j < id ==> (#[trigger] self.spec_items()[j]).name@ != name@),
                None => forall|j: int|
                    0 <= j < self.spec_items().len()
                        ==> (#[trigger] self.spec_items()[j]).name@ != name@,
            },
    {
        let n = self.items.len();
        let mut i: usize = 0;
        while i < n
            invariant
                n == self.spec_items().len() <= i32::MAX,
                i <= n,
                forall|j: int| 0 <= j < i ==> (#[trigger] self.spec_items()[j]).name@ != name@,
            decreases n - i,
        {
            if self.items[i].name == name {
                return Some(i as i32);
            }
            i = i + 1;
        }
        None
    }

    /// Projects the transparency flag of the item with the given id; absence
    /// propagates as `None`, not as a default value.
    pub fn is_transparent(&self, item_id: i32) -> (r: Option<bool>)
        ensures
            match r {
                Some(t) => 0 <= item_id < self.spec_items().len()
                    && t == self.spec_items()[item_id as int].is_transparent,
                None => !(0 <= item_id < self.spec_items().len()),
            },
    {
        match self.get_item_by_id(item_id) {
            Some(info) => Some(info.is_transparent),
            None => None,
        }
    }
}

/// Law: appending a descriptor and immediately looking it up under id n - 1,
/// where n is the registry's size after the insertion, yields exactly the
/// descriptor that was appended.
pub proof fn lemma_put_then_get(items: Seq<ItemInfo>, item: ItemInfo)
    ensures
        items.push(item).len() == items.len() + 1,
        items.push(item)[items.push(item).len() - 1] == item,
{
}

} // verus!
