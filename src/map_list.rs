use vstd::prelude::*;

use crate::bytes::{fits, le16, le32, read_le_u16, read_le_u32};
use crate::error::Error;

verus! {

/// One entry of a DEX map list: an item type, a count and an offset.
#[derive(Debug, Clone, Copy, PartialEq, Eq, Structural)]
pub struct MapItem {
    pub map_item_type: u16,
    pub size: u32,
    pub offset: u32,
}

/// The 12-byte map entry at `p` (two bytes after the type are unused).
pub open spec fn map_item_at(s: Seq<u8>, p: int) -> MapItem {
    MapItem {
        map_item_type: le16(s, p) as u16,
        size: le32(s, p + 4) as u32,
        offset: le32(s, p + 8) as u32,
    }
}

impl MapItem {
    /// Decodes the entry at `p`.
    pub fn parse(b: &[u8], p: usize) -> (r: Result<MapItem, Error>)
        ensures
            match r {
                Ok(m) => fits(b@, p as int, 12) && m == map_item_at(b@, p as int),
                Err(e) => !fits(b@, p as int, 12) && e == Error::Truncated,
            },
    {
        let map_item_type = read_le_u16(b, p)?;
        let _unused = read_le_u16(b, p + 2)?;
        let size = read_le_u32(b, p + 4)?;
        let offset = read_le_u32(b, p + 8)?;
        Ok(MapItem { map_item_type, size, offset })
    }
}

/// A DEX map list: a count and that many entries.
#[derive(Debug)]
pub struct MapList {
    pub size: u32,
    pub map_item: Vec<MapItem>,
}

impl MapList {
    /// Decodes the map list at `p`.
    pub fn parse(b: &[u8], p: usize) -> (r: Result<MapList, Error>)
        ensures
            match r {
                Ok(m) => fits(b@, p as int, 4) && m.size == le32(b@, p as int) && m.map_item@.len()
                    == m.size && forall|i: int|
                    0 <= i < m.size ==> #[trigger] m.map_item@[i] == map_item_at(b@, p + 4 + 12 * i),
                Err(e) => e == Error::Truncated && !(fits(b@, p as int, 4) && fits(
                    b@,
                    p + 4,
                    12 * le32(b@, p as int),
                )),
            },
    {
        let size = read_le_u32(b, p)?;
        let mut items: Vec<MapItem> = Vec::new();
        let mut pos = p + 4;
        let mut i: u32 = 0;
        while i < size
            invariant
                b@.len() <= usize::MAX,
                fits(b@, p as int, 4),
                size == le32(b@, p as int),
                i <= size,
                pos == p + 4 + 12 * i,
                pos <= b@.len(),
                items@.len() == i,
                forall|j: int| 0 <= j < i ==> #[trigger] items@[j] == map_item_at(b@, p + 4 + 12 * j),
            decreases size - i,
        {
            let m = match MapItem::parse(b, pos) {
                Ok(m) => m,
                Err(e) => {
                    assert(!fits(b@, p + 4, 12 * size)) by (nonlinear_arith)
                        requires
                            !fits(b@, p + 4 + 12 * i, 12),
                            i < size,
                            pos == p + 4 + 12 * i;
                    return Err(e);
                },
            };
            items.push(m);
            pos = pos + 12;
            i = i + 1;
        }
        Ok(MapList { size, map_item: items })
    }
}

} // verus!
