//! Firmware containers.
//!
//! A container starts with the magic `LBFW`, the format version 0, the length
//! of the firmware version in one byte, and the firmware version. Images follow
//! one another: the slot and the length of the data as little endian 32 bit
//! numbers, then the data. The SHA-512 digest of everything before it ends the
//! container.

use crate::digest;
use crate::digest::bytes_equal;
use crate::digest::sha512_digest;
use crate::digest::utf8_text;
use crate::digest::xmodem_checksum;
use crate::error::Error;
use crate::traits;
use crate::traits::Cursor;
use vstd::prelude::*;
use vstd::utf8::*;

verus! {

/// The length of the digest at the end.
pub const DIGEST_LENGTH: usize = 64;

/// All that an upload needs to know of an image.
#[derive(Clone, Copy, Debug, PartialEq, Eq)]
pub struct FirmwareContainerImage {
    /// The slot to upload the image to.
    pub slot: u32,
    /// Where the data of the image starts in the container.
    pub start: usize,
    /// Where the data of the image ends in the container.
    pub end: usize,
    /// The CRC-16/XMODEM of the data. The device asks for it; the container
    /// itself only holds a digest over everything.
    pub crc: u16,
}

/// A parsed container. The images are given by where they lie in the bytes that
/// were parsed.
#[derive(Debug)]
pub struct FirmwareContainer {
    /// The firmware version that the container states.
    pub firmware_version: String,
    /// The images, by descending slot.
    pub images: Vec<FirmwareContainerImage>,
}

/// The image whose header starts at `pos`, still without its checksum.
pub open spec fn image_at(data: Seq<u8>, pos: int) -> FirmwareContainerImage {
    let start = pos + 8;
    let end = start + traits::le_u32_at(data, pos + 4);
    FirmwareContainerImage {
        slot: traits::le_u32_at(data, pos) as u32,
        start: start as usize,
        end: end as usize,
        crc: 0,
    }
}

/// Where the image ends whose header starts at `pos`.
pub open spec fn image_end(data: Seq<u8>, pos: int) -> int {
    pos + 8 + traits::le_u32_at(data, pos + 4)
}

/// Where the images end that start at `pos`: as soon as no more is left than
/// the digest. Nothing, if an image does not fit.
pub open spec fn images_end(data: Seq<u8>, pos: int) -> Option<int>
    decreases data.len() - pos,
{
    if data.len() - pos <= DIGEST_LENGTH {
        Some(pos)
    } else if image_end(data, pos) > data.len() {
        None
    } else {
        images_end(data, image_end(data, pos))
    }
}

/// The images that start at `pos`, in the order in which they are stored.
pub open spec fn images_at(data: Seq<u8>, pos: int) -> Seq<FirmwareContainerImage>
    decreases data.len() - pos,
{
    if data.len() - pos <= DIGEST_LENGTH || image_end(data, pos) > data.len() {
        Seq::empty()
    } else {
        seq![image_at(data, pos)] + images_at(data, image_end(data, pos))
    }
}

/// Puts an image behind those with the same or a higher slot.
pub open spec fn insert_by_slot(
    sorted: Seq<FirmwareContainerImage>,
    image: FirmwareContainerImage,
) -> Seq<FirmwareContainerImage>
    decreases sorted.len(),
{
    if sorted.len() == 0 || sorted.last().slot >= image.slot {
        sorted.push(image)
    } else {
        insert_by_slot(sorted.drop_last(), image).push(sorted.last())
    }
}

/// The images by descending slot; those of the same slot stay in order.
pub open spec fn sorted_by_slot(images: Seq<FirmwareContainerImage>) -> Seq<
    FirmwareContainerImage,
>
    decreases images.len(),
{
    if images.len() == 0 {
        images
    } else {
        insert_by_slot(sorted_by_slot(images.drop_last()), images.last())
    }
}

/// What lies where in a container: the firmware version, the images without
/// their checksums, and where the digest starts; or why it is none.
pub open spec fn container_layout(data: Seq<u8>) -> Result<
    (Seq<char>, Seq<FirmwareContainerImage>, int),
    Error,
> {
    if data.len() < 4 {
        Err(Error::ShortRead)
    } else if data.take(4) != seq![0x4cu8, 0x42u8, 0x46u8, 0x57u8] {
        Err(Error::UnsupportedMagic)
    } else if data.len() < 5 {
        Err(Error::ShortRead)
    } else if data[4] != 0 {
        Err(Error::UnsupportedFormatVersion)
    } else if data.len() < 6 || data.len() < 6 + data[5] {
        Err(Error::ShortRead)
    } else {
        let first = 6 + data[5];
        let version = data.subrange(6, first);
        let images = sorted_by_slot(images_at(data, first));
        if !valid_utf8(version) {
            Err(Error::InvalidUtf8)
        } else if images_end(data, first) is None {
            Err(Error::ShortRead)
        } else if images.len() == 0 || images.last().slot != 1 {
            Err(Error::NoMainImage)
        } else {
            let end = images_end(data, first)->0;
            if data.len() - end < DIGEST_LENGTH {
                Err(Error::ShortRead)
            } else {
                Ok((decode_utf8(version), images, end))
            }
        }
    }
}

/// An image with its checksum.
pub open spec fn with_checksum(data: Seq<u8>, image: FirmwareContainerImage) -> FirmwareContainerImage {
    FirmwareContainerImage {
        crc: digest::crc16_xmodem(data.subrange(image.start as int, image.end as int)),
        ..image
    }
}

/// Images with their checksums.
pub open spec fn with_checksums(data: Seq<u8>, images: Seq<FirmwareContainerImage>) -> Seq<
    FirmwareContainerImage,
> {
    images.map_values(|image: FirmwareContainerImage| with_checksum(data, image))
}

/// What a container holds: the firmware version and the images, or why it is
/// none.
pub open spec fn container_contents(data: Seq<u8>) -> Result<
    (Seq<char>, Seq<FirmwareContainerImage>),
    Error,
> {
    match container_layout(data) {
        Err(e) => Err(e),
        Ok((version, images, end)) => if digest::sha512(data.take(end)) != data.skip(end) {
            Err(Error::InvalidChecksum)
        } else {
            Ok((version, with_checksums(data, images)))
        },
    }
}

/// Puts an image where it belongs in a list that is sorted by descending slot.
fn insert_image(sorted: &mut Vec<FirmwareContainerImage>, image: FirmwareContainerImage)
    ensures
        final(sorted)@ == insert_by_slot(old(sorted)@, image),
{
    let ghost before = sorted@;
    let mut i: usize = sorted.len();
    proof {
        assert(before.take(i as int) =~= before);
        assert(insert_by_slot(before, image) + Seq::empty() =~= insert_by_slot(before, image));
        assert(before.skip(i as int) =~= Seq::empty());
    }
    while i > 0 && sorted[i - 1].slot < image.slot
        invariant
            i <= before.len(),
            sorted@ == before,
            insert_by_slot(before, image) == insert_by_slot(before.take(i as int), image)
                + before.skip(i as int),
        decreases i,
    {
        proof {
            let head = before.take(i as int);
            assert(head.drop_last() =~= before.take(i - 1));
            assert(head.last() == before[i - 1]);
            assert(insert_by_slot(before.take(i - 1), image).push(before[i - 1]) + before.skip(
                i as int,
            ) =~= insert_by_slot(before.take(i - 1), image) + before.skip(i - 1));
        }
        i -= 1;
    }
    sorted.insert(i, image);
    proof {
        let head = before.take(i as int);
        if i > 0 {
            assert(head.last() == before[i - 1]);
        }
        assert(insert_by_slot(head, image) == head.push(image));
        assert(before.insert(i as int, image) =~= head.push(image) + before.skip(i as int));
    }
}

/// A stored image takes part in the order as the next one.
proof fn lemma_images_step(data: Seq<u8>, first: int, pos: int, done: Seq<FirmwareContainerImage>)
    requires
        0 <= first <= pos,
        data.len() - pos > DIGEST_LENGTH,
        image_end(data, pos) <= data.len(),
        images_at(data, first) == done + images_at(data, pos),
    ensures
        images_at(data, first) == done.push(image_at(data, pos)) + images_at(
            data,
            image_end(data, pos),
        ),
{
    assert(done + (seq![image_at(data, pos)] + images_at(data, image_end(data, pos))) =~= done.push(
        image_at(data, pos),
    ) + images_at(data, image_end(data, pos)));
}

impl FirmwareContainer {
    /// Every image lies inside `data`.
    pub open spec fn fits(self, data: Seq<u8>) -> bool {
        forall|i: int|
            0 <= i < self.images@.len() ==> {
                let image = #[trigger] self.images@[i];
                image.start <= image.end <= data.len()
            }
    }

    /// Finds out what lies where in a container, and where its digest starts.
    /// Nothing is checked against the digest yet, and the images have no
    /// checksums.
    pub fn parse_layout(data: &[u8]) -> (res: Result<(Self, usize), Error>)
        ensures
            match res {
                Ok((container, end)) => container_layout(data@) == Ok::<
                    (Seq<char>, Seq<FirmwareContainerImage>, int),
                    Error,
                >((container.firmware_version@, container.images@, end as int)),
                Err(e) => container_layout(data@) == Err::<
                    (Seq<char>, Seq<FirmwareContainerImage>, int),
                    Error,
                >(e),
            },
            res matches Ok((container, end)) ==> container.fits(data@) && end + DIGEST_LENGTH
                == data@.len(),
    {
        let mut reader = Cursor::new(data);
        let magic = reader.take(4)?;
        assert(magic@ =~= data@.take(4));
        if magic[0] != 0x4c || magic[1] != 0x42 || magic[2] != 0x46 || magic[3] != 0x57 {
            assert(data@.take(4) != seq![0x4cu8, 0x42u8, 0x46u8, 0x57u8]) by {
                let expected = seq![0x4cu8, 0x42u8, 0x46u8, 0x57u8];
                assert(expected[0] == 0x4c && expected[1] == 0x42);
                assert(expected[2] == 0x46 && expected[3] == 0x57);
            }
            return Err(Error::UnsupportedMagic);
        }
        assert(data@.take(4) =~= seq![0x4cu8, 0x42u8, 0x46u8, 0x57u8]);
        let format_version: u8 = reader.read_u8()?;
        if format_version != 0 {
            return Err(Error::UnsupportedFormatVersion);
        }
        let version_length: usize = reader.read_u8()? as usize;
        let version_bytes = reader.take(version_length)?;
        let firmware_version: String = match utf8_text(version_bytes) {
            Some(version) => version,
            None => {
                return Err(Error::InvalidUtf8);
            },
        };
        let ghost first: int = reader.pos();
        let ghost mut stored: Seq<FirmwareContainerImage> = Seq::empty();
        let mut images: Vec<FirmwareContainerImage> = Vec::new();
        assert(images_at(data@, first) =~= stored + images_at(data@, first));
        while reader.remaining() > DIGEST_LENGTH
            invariant
                reader.data() == data@,
                0 <= first <= reader.pos() <= data@.len(),
                images@ == sorted_by_slot(stored),
                images_end(data@, first) == images_end(data@, reader.pos()),
                images_at(data@, first) == stored + images_at(data@, reader.pos()),
                data@.len() >= 6,
                first == 6 + data@[5],
                container_layout(data@) == Err::<
                    (Seq<char>, Seq<FirmwareContainerImage>, int),
                    Error,
                >(Error::ShortRead) || images_end(data@, first) is Some,
            decreases data@.len() - reader.pos(),
        {
            let ghost pos = reader.pos();
            let slot: u32 = reader.read_u32_le()?;
            let length: u32 = reader.read_u32_le()?;
            let start: usize = reader.position_usize();
            reader.take(length as usize)?;
            let end: usize = reader.position_usize();
            let image = FirmwareContainerImage { slot, start, end, crc: 0 };
            proof {
                assert(image == image_at(data@, pos));
                lemma_images_step(data@, first, pos, stored);
                assert(stored.push(image).drop_last() =~= stored);
                stored = stored.push(image);
            }
            insert_image(&mut images, image);
        }
        proof {
            assert(stored + Seq::empty() =~= stored);
        }
        if images.len() == 0 || images[images.len() - 1].slot != 1 {
            return Err(Error::NoMainImage);
        }
        let end: usize = reader.position_usize();
        reader.take(DIGEST_LENGTH)?;
        proof {
            assert(data.len() == data@.len());
            lemma_layout_images(data@, firmware_version@, images@, end as int);
            lemma_images_end(data@, first);
        }
        Ok((Self { firmware_version, images }, end))
    }

    /// Checks a digest, which was calculated over everything before `end`,
    /// against the one that the container ends with.
    pub fn check_digest(data: &[u8], end: usize, calculated: &[u8]) -> (res: Result<(), Error>)
        requires
            end <= data@.len(),
        ensures
            res == (if calculated@ == data@.skip(end as int) {
                Ok::<(), Error>(())
            } else {
                Err::<(), Error>(Error::InvalidChecksum)
            }),
    {
        let stored = vstd::slice::slice_subrange(data, end, data.len());
        assert(stored@ =~= data@.skip(end as int));
        if bytes_equal(calculated, stored) {
            Ok(())
        } else {
            Err(Error::InvalidChecksum)
        }
    }

    /// Parses the container in `data`.
    pub fn from_slice(data: &[u8]) -> (res: Result<Self, Error>)
        ensures
            match res {
                Ok(container) => container_contents(data@) == Ok::<
                    (Seq<char>, Seq<FirmwareContainerImage>),
                    Error,
                >((container.firmware_version@, container.images@)),
                Err(e) => container_contents(data@) == Err::<
                    (Seq<char>, Seq<FirmwareContainerImage>),
                    Error,
                >(e),
            },
            res matches Ok(container) ==> container.fits(data@),
    {
        let (layout, end) = Self::parse_layout(data)?;
        let checksummed = vstd::slice::slice_subrange(data, 0, end);
        assert(checksummed@ =~= data@.take(end as int));
        let calculated: Vec<u8> = sha512_digest(checksummed);
        Self::check_digest(data, end, calculated.as_slice())?;
        let mut images: Vec<FirmwareContainerImage> = Vec::new();
        let mut i: usize = 0;
        while i < layout.images.len()
            invariant
                i <= layout.images@.len(),
                layout.fits(data@),
                images@ == with_checksums(data@, layout.images@.take(i as int)),
            decreases layout.images@.len() - i,
        {
            let image: FirmwareContainerImage = layout.images[i];
            let crc: u16 = xmodem_checksum(
                vstd::slice::slice_subrange(data, image.start, image.end),
            );
            images.push(FirmwareContainerImage { crc, ..image });
            assert(images@ =~= with_checksums(data@, layout.images@.take(i + 1)));
            i += 1;
        }
        assert(layout.images@.take(i as int) =~= layout.images@);
        Ok(Self { firmware_version: layout.firmware_version, images })
    }
}

/// Descending slots.
pub open spec fn is_sorted_by_slot(images: Seq<FirmwareContainerImage>) -> bool {
    forall|i: int, j: int|
        0 <= i <= j < images.len() ==> #[trigger] images[i].slot >= #[trigger] images[j].slot
}

/// The images for one slot.
pub open spec fn images_of_slot(images: Seq<FirmwareContainerImage>, slot: u32) -> Seq<
    FirmwareContainerImage,
> {
    images.filter(|image: FirmwareContainerImage| image.slot == slot)
}

proof fn lemma_filter_push(
    images: Seq<FirmwareContainerImage>,
    image: FirmwareContainerImage,
    slot: u32,
)
    ensures
        images_of_slot(images.push(image), slot) == (if image.slot == slot {
            images_of_slot(images, slot).push(image)
        } else {
            images_of_slot(images, slot)
        }),
{
    assert(images.push(image).drop_last() =~= images);
    reveal(Seq::filter);
}

proof fn lemma_insert_by_slot(
    sorted: Seq<FirmwareContainerImage>,
    image: FirmwareContainerImage,
    slot: u32,
)
    ensures
        images_of_slot(insert_by_slot(sorted, image), slot) == (if image.slot == slot {
            images_of_slot(sorted, slot).push(image)
        } else {
            images_of_slot(sorted, slot)
        }),
        insert_by_slot(sorted, image).len() == sorted.len() + 1,
        forall|x: FirmwareContainerImage| #[trigger]
            insert_by_slot(sorted, image).contains(x) ==> x == image || sorted.contains(x),
        is_sorted_by_slot(sorted) ==> is_sorted_by_slot(insert_by_slot(sorted, image)),
    decreases sorted.len(),
{
    let res = insert_by_slot(sorted, image);
    if sorted.len() == 0 || sorted.last().slot >= image.slot {
        lemma_filter_push(sorted, image, slot);
        assert forall|x: FirmwareContainerImage| #[trigger] res.contains(x) implies x == image
            || sorted.contains(x) by {
            let k = choose|k: int| 0 <= k < res.len() && res[k] == x;
            if k < sorted.len() {
                assert(sorted[k] == x);
            }
        }
        if is_sorted_by_slot(sorted) {
            assert forall|i: int, j: int| 0 <= i <= j < res.len() implies #[trigger] res[i].slot
                >= #[trigger] res[j].slot by {
                if j == sorted.len() && i < j {
                    assert(sorted[i].slot >= sorted[sorted.len() - 1].slot);
                }
            }
        }
    } else {
        let rest = sorted.drop_last();
        let inner = insert_by_slot(rest, image);
        lemma_insert_by_slot(rest, image, slot);
        lemma_filter_push(rest, sorted.last(), slot);
        lemma_filter_push(inner, sorted.last(), slot);
        assert(rest.push(sorted.last()) =~= sorted);
        assert forall|x: FirmwareContainerImage| #[trigger] res.contains(x) implies x == image
            || sorted.contains(x) by {
            let k = choose|k: int| 0 <= k < res.len() && res[k] == x;
            if k < inner.len() {
                assert(inner[k] == x);
                assert(inner.contains(x));
                if x != image {
                    let m = choose|m: int| 0 <= m < rest.len() && rest[m] == x;
                    assert(sorted[m] == x);
                }
            } else {
                assert(sorted[sorted.len() - 1] == x);
            }
        }
        if is_sorted_by_slot(sorted) {
            assert(is_sorted_by_slot(rest));
            assert forall|i: int, j: int| 0 <= i <= j < res.len() implies #[trigger] res[i].slot
                >= #[trigger] res[j].slot by {
                if j == inner.len() && i < j {
                    assert(inner.contains(inner[i]));
                    if inner[i] != image {
                        let m = choose|m: int| 0 <= m < rest.len() && rest[m] == inner[i];
                        assert(sorted[m].slot >= sorted[sorted.len() - 1].slot);
                    }
                }
            }
        }
    }
}

/// Sorting by slot gives descending slots, and for every slot exactly the
/// images that were there before, in the same order.
pub proof fn law_sorted_by_slot(images: Seq<FirmwareContainerImage>, slot: u32)
    ensures
        is_sorted_by_slot(sorted_by_slot(images)),
        images_of_slot(sorted_by_slot(images), slot) == images_of_slot(images, slot),
        sorted_by_slot(images).len() == images.len(),
        forall|x: FirmwareContainerImage| #[trigger]
            sorted_by_slot(images).contains(x) ==> images.contains(x),
    decreases images.len(),
{
    if images.len() > 0 {
        let rest = images.drop_last();
        law_sorted_by_slot(rest, slot);
        lemma_insert_by_slot(sorted_by_slot(rest), images.last(), slot);
        lemma_filter_push(rest, images.last(), slot);
        assert(rest.push(images.last()) =~= images);
        assert forall|x: FirmwareContainerImage| #[trigger]
            sorted_by_slot(images).contains(x) implies images.contains(x) by {
            if x == images.last() {
                assert(images[images.len() - 1] == x);
            } else {
                assert(sorted_by_slot(rest).contains(x));
                let m = choose|m: int| 0 <= m < rest.len() && rest[m] == x;
                assert(images[m] == x);
            }
        }
    }
}

proof fn lemma_images_inside(data: Seq<u8>, pos: int)
    requires
        0 <= pos,
        data.len() <= usize::MAX,
    ensures
        forall|i: int|
            0 <= i < images_at(data, pos).len() ==> {
                let image = #[trigger] images_at(data, pos)[i];
                pos + 8 <= image.start <= image.end <= data.len()
            },
    decreases data.len() - pos,
{
    if data.len() - pos > DIGEST_LENGTH && image_end(data, pos) <= data.len() {
        let next = image_end(data, pos);
        lemma_images_inside(data, next);
        let all = images_at(data, pos);
        assert forall|i: int| 0 <= i < all.len() implies {
            let image = #[trigger] all[i];
            pos + 8 <= image.start <= image.end <= data.len()
        } by {
            if i > 0 {
                assert(all[i] == images_at(data, next)[i - 1]);
            }
        }
    }
}

proof fn lemma_layout_images(
    data: Seq<u8>,
    version: Seq<char>,
    images: Seq<FirmwareContainerImage>,
    end: int,
)
    requires
        data.len() <= usize::MAX,
        container_layout(data) == Ok::<(Seq<char>, Seq<FirmwareContainerImage>, int), Error>(
            (version, images, end),
        ),
    ensures
        images.len() > 0,
        images.last().slot == 1,
        is_sorted_by_slot(images),
        forall|i: int|
            0 <= i < images.len() ==> {
                let image = #[trigger] images[i];
                image.start <= image.end <= data.len()
            },
{
    let first = 6 + data[5];
    let stored = images_at(data, first);
    law_sorted_by_slot(stored, 1);
    lemma_images_inside(data, first);
    assert forall|i: int| 0 <= i < images.len() implies {
        let image = #[trigger] images[i];
        image.start <= image.end <= data.len()
    } by {
        assert(sorted_by_slot(stored).contains(images[i]));
        let m = choose|m: int| 0 <= m < stored.len() && stored[m] == images[i];
        assert(stored[m] == images[i]);
    }
}

/// Every image of a container lies inside its bytes and carries the checksum of
/// its data; the slots descend, and the last one is slot 1.
pub proof fn law_container_images(
    data: Seq<u8>,
    version: Seq<char>,
    images: Seq<FirmwareContainerImage>,
)
    requires
        data.len() <= usize::MAX,
        container_contents(data) == Ok::<(Seq<char>, Seq<FirmwareContainerImage>), Error>(
            (version, images),
        ),
    ensures
        images.len() > 0,
        images.last().slot == 1,
        is_sorted_by_slot(images),
        forall|i: int|
            0 <= i < images.len() ==> {
                let image = #[trigger] images[i];
                &&& image.start <= image.end <= data.len()
                &&& image.crc == digest::crc16_xmodem(
                    data.subrange(image.start as int, image.end as int),
                )
            },
{
    let (_, stored, end) = container_layout(data)->Ok_0;
    lemma_layout_images(data, version, stored, end);
    assert(images =~= with_checksums(data, stored));
    assert forall|i: int, j: int| 0 <= i <= j < images.len() implies #[trigger] images[i].slot
        >= #[trigger] images[j].slot by {
        assert(stored[i].slot >= stored[j].slot);
    }
    assert forall|i: int| 0 <= i < images.len() implies {
        let image = #[trigger] images[i];
        &&& image.start <= image.end <= data.len()
        &&& image.crc == digest::crc16_xmodem(
            data.subrange(image.start as int, image.end as int),
        )
    } by {
        assert(stored[i].start == images[i].start);
    }
}

/// A container ends with the digest of everything before it: no byte of it is
/// left unchecked.
pub proof fn law_container_is_covered_by_digest(
    data: Seq<u8>,
    version: Seq<char>,
    images: Seq<FirmwareContainerImage>,
)
    requires
        container_contents(data) == Ok::<(Seq<char>, Seq<FirmwareContainerImage>), Error>(
            (version, images),
        ),
    ensures
        data.len() >= DIGEST_LENGTH,
        data.skip(data.len() - DIGEST_LENGTH) == digest::sha512(
            data.take(data.len() - DIGEST_LENGTH),
        ),
{
    lemma_images_end(data, 6 + data[5]);
}

proof fn lemma_images_end(data: Seq<u8>, pos: int)
    ensures
        images_end(data, pos) matches Some(end) ==> data.len() - end <= DIGEST_LENGTH,
    decreases data.len() - pos,
{
    if data.len() - pos > DIGEST_LENGTH && image_end(data, pos) <= data.len() {
        lemma_images_end(data, image_end(data, pos));
    }
}

/// The little endian bytes of a 32 bit number.
pub open spec fn le_number(number: int) -> Seq<u8> {
    seq![
        (number % 0x100) as u8,
        (number / 0x100 % 0x100) as u8,
        (number / 0x10000 % 0x100) as u8,
        (number / 0x1000000 % 0x100) as u8,
    ]
}

/// Images, given by slot and data, as they are stored one behind the other.
pub open spec fn stored_images(images: Seq<(u32, Seq<u8>)>) -> Seq<u8>
    decreases images.len(),
{
    if images.len() == 0 {
        Seq::empty()
    } else {
        le_number(images[0].0 as int) + le_number(images[0].1.len() as int) + images[0].1
            + stored_images(images.drop_first())
    }
}

/// A container of a version and images without its digest.
pub open spec fn container_body(version: Seq<char>, images: Seq<(u32, Seq<u8>)>) -> Seq<u8> {
    let text = encode_utf8(version);
    seq![0x4cu8, 0x42u8, 0x46u8, 0x57u8, 0u8, text.len() as u8] + text + stored_images(images)
}

/// Where images lie that are stored from `pos` on, and their checksums.
pub open spec fn placed_images(images: Seq<(u32, Seq<u8>)>, pos: int) -> Seq<
    FirmwareContainerImage,
>
    decreases images.len(),
{
    if images.len() == 0 {
        Seq::empty()
    } else {
        let end = pos + 8 + images[0].1.len();
        seq![
            FirmwareContainerImage {
                slot: images[0].0,
                start: (pos + 8) as usize,
                end: end as usize,
                crc: digest::crc16_xmodem(images[0].1),
            },
        ] + placed_images(images.drop_first(), end)
    }
}

/// Whether images can go into a container: their lengths fit into 32 bits.
pub open spec fn are_storable(images: Seq<(u32, Seq<u8>)>) -> bool {
    forall|i: int| 0 <= i < images.len() ==> (#[trigger] images[i]).1.len() <= u32::MAX
}

/// Whether there is a main image, and none for a slot below it.
pub open spec fn has_main_image(images: Seq<(u32, Seq<u8>)>) -> bool {
    &&& exists|i: int| 0 <= i < images.len() && (#[trigger] images[i]).0 == 1
    &&& forall|i: int| 0 <= i < images.len() ==> (#[trigger] images[i]).0 >= 1
}

proof fn lemma_le_number(data: Seq<u8>, at: int, number: int)
    requires
        0 <= number <= u32::MAX,
        0 <= at,
        at + 4 <= data.len(),
        data.subrange(at, at + 4) == le_number(number),
    ensures
        traits::le_u32_at(data, at) == number,
{
    let bytes = data.subrange(at, at + 4);
    assert(bytes[0] == data[at]);
    assert(bytes[1] == data[at + 1]);
    assert(bytes[2] == data[at + 2]);
    assert(bytes[3] == data[at + 3]);
}

proof fn lemma_stored_images(head: Seq<u8>, images: Seq<(u32, Seq<u8>)>, tail: Seq<u8>)
    requires
        tail.len() == DIGEST_LENGTH,
        are_storable(images),
        head.len() + stored_images(images).len() + tail.len() <= usize::MAX,
    ensures
        ({
            let data = head + stored_images(images) + tail;
            &&& images_end(data, head.len() as int) == Some(
                (head.len() + stored_images(images).len()) as int,
            )
            &&& with_checksums(data, images_at(data, head.len() as int)) == placed_images(
                images,
                head.len() as int,
            )
        }),
    decreases images.len(),
{
    let data = head + stored_images(images) + tail;
    let pos = head.len() as int;
    if images.len() == 0 {
        assert(images_at(data, pos) =~= Seq::empty());
        assert(with_checksums(data, images_at(data, pos)) =~= placed_images(images, pos));
    } else {
        let (slot, bytes) = images[0];
        let rest = images.drop_first();
        let header = le_number(slot as int) + le_number(bytes.len() as int);
        let next = head + (header + bytes);
        assert(are_storable(rest)) by {
            assert forall|i: int| 0 <= i < rest.len() implies (#[trigger] rest[i]).1.len()
                <= u32::MAX by {
                assert(rest[i] == images[i + 1]);
            }
        }
        assert(data =~= next + stored_images(rest) + tail);
        assert(data.subrange(pos, pos + 4) =~= le_number(slot as int));
        assert(data.subrange(pos + 4, pos + 8) =~= le_number(bytes.len() as int));
        lemma_le_number(data, pos, slot as int);
        lemma_le_number(data, pos + 4, bytes.len() as int);
        lemma_stored_images(next, rest, tail);
        let end = pos + 8 + bytes.len();
        assert(next.len() == end);
        assert(image_end(data, pos) == end);
        assert(data.subrange(pos + 8, end) =~= bytes);
        let one = image_at(data, pos);
        assert(images_at(data, pos) == seq![one] + images_at(data, end));
        assert(with_checksums(data, images_at(data, pos)) =~= seq![with_checksum(data, one)]
            + with_checksums(data, images_at(data, end)));
        assert(placed_images(images, pos) =~= seq![with_checksum(data, one)] + placed_images(
            rest,
            end,
        ));
    }
}

proof fn lemma_checksums_by_slot(data: Seq<u8>, images: Seq<FirmwareContainerImage>, slot: u32)
    ensures
        images_of_slot(with_checksums(data, images), slot) == with_checksums(
            data,
            images_of_slot(images, slot),
        ),
    decreases images.len(),
{
    if images.len() == 0 {
        reveal(Seq::filter);
        assert(with_checksums(data, images) =~= Seq::empty());
        assert(images_of_slot(with_checksums(data, images), slot) =~= with_checksums(
            data,
            images_of_slot(images, slot),
        ));
    } else {
        let rest = images.drop_last();
        let last = images.last();
        lemma_checksums_by_slot(data, rest, slot);
        assert(rest.push(last) =~= images);
        assert(with_checksums(data, images) =~= with_checksums(data, rest).push(
            with_checksum(data, last),
        ));
        lemma_filter_push(rest, last, slot);
        lemma_filter_push(with_checksums(data, rest), with_checksum(data, last), slot);
        assert(images_of_slot(with_checksums(data, images), slot) =~= with_checksums(
            data,
            images_of_slot(images, slot),
        ));
    }
}

proof fn lemma_placed_slots(images: Seq<(u32, Seq<u8>)>, pos: int)
    ensures
        placed_images(images, pos).len() == images.len(),
        forall|i: int|
            0 <= i < images.len() ==> (#[trigger] placed_images(images, pos)[i]).slot
                == images[i].0,
    decreases images.len(),
{
    if images.len() > 0 {
        let rest = images.drop_first();
        let end = pos + 8 + images[0].1.len();
        lemma_placed_slots(rest, end);
        let all = placed_images(images, pos);
        assert forall|i: int| 0 <= i < images.len() implies (#[trigger] all[i]).slot
            == images[i].0 by {
            if i > 0 {
                assert(all[i] == placed_images(rest, end)[i - 1]);
                assert(rest[i - 1] == images[i]);
            }
        }
    }
}

/// An image that is in a list is there after sorting.
proof fn lemma_sorted_contains(images: Seq<FirmwareContainerImage>, i: int)
    requires
        0 <= i < images.len(),
    ensures
        sorted_by_slot(images).contains(images[i]),
{
    let slot = images[i].slot;
    let of_slot = |image: FirmwareContainerImage| image.slot == slot;
    law_sorted_by_slot(images, slot);
    assert(images_of_slot(images, slot) == images.filter(of_slot));
    assert(images_of_slot(sorted_by_slot(images), slot) == sorted_by_slot(images).filter(of_slot));
    images.lemma_filter_contains(of_slot, i);
    sorted_by_slot(images).lemma_filter_contains_rev(of_slot, images[i]);
}

/// The lowest slot of a container is that of its last image.
proof fn lemma_main_image_is_last(
    images: Seq<(u32, Seq<u8>)>,
    placed: Seq<FirmwareContainerImage>,
)
    requires
        placed.len() == images.len(),
        forall|i: int| 0 <= i < images.len() ==> (#[trigger] placed[i]).slot == images[i].0,
    ensures
        has_main_image(images) <==> sorted_by_slot(placed).len() > 0 && sorted_by_slot(
            placed,
        ).last().slot == 1,
{
    let sorted = sorted_by_slot(placed);
    law_sorted_by_slot(placed, 1);
    assert forall|i: int| 0 <= i < images.len() implies (#[trigger] images[i]).0
        >= sorted.last().slot by {
        lemma_sorted_contains(placed, i);
        let m = choose|m: int| 0 <= m < sorted.len() && sorted[m] == placed[i];
        assert(sorted[m].slot >= sorted[sorted.len() - 1].slot);
        assert(placed[i].slot == images[i].0);
    }
    if sorted.len() > 0 {
        assert(sorted.contains(sorted[sorted.len() - 1]));
        let n = choose|n: int| 0 <= n < placed.len() && placed[n] == sorted.last();
        assert(placed[n].slot == images[n].0);
    }
}

/// A container that is put together from a version and images is parsed back
/// into exactly these. Each image lies where it was put, with all of its data
/// and the checksum of it, however long it is; the slots descend, and images of
/// the same slot keep their order. It has to have a main image as its lowest
/// one, and to end with the digest of everything before; otherwise it is refused
/// for just that.
pub proof fn law_container_round_trip(
    version: Seq<char>,
    images: Seq<(u32, Seq<u8>)>,
    tail: Seq<u8>,
    slot: u32,
)
    requires
        encode_utf8(version).len() <= 255,
        are_storable(images),
        tail.len() == 64,
        container_body(version, images).len() + tail.len() <= usize::MAX,
    ensures
        ({
            let body = container_body(version, images);
            let placed = placed_images(images, 6 + encode_utf8(version).len() as int);
            match container_contents(body + tail) {
                Ok((text, parsed)) => {
                    &&& has_main_image(images)
                    &&& tail == digest::sha512(body)
                    &&& text == version
                    &&& parsed.len() == images.len()
                    &&& is_sorted_by_slot(parsed)
                    &&& images_of_slot(parsed, slot) == images_of_slot(placed, slot)
                },
                Err(e) => if !has_main_image(images) {
                    e == Error::NoMainImage
                } else {
                    e == Error::InvalidChecksum && tail != digest::sha512(body)
                },
            }
        }),
{
    broadcast use {encode_utf8_valid_utf8, encode_utf8_decode_utf8};

    let text = encode_utf8(version);
    let head = seq![0x4cu8, 0x42u8, 0x46u8, 0x57u8, 0u8, text.len() as u8] + text;
    let body = container_body(version, images);
    let data = body + tail;
    let first = 6 + text.len() as int;
    assert(data =~= head + stored_images(images) + tail);
    assert(data.take(4) =~= seq![0x4cu8, 0x42u8, 0x46u8, 0x57u8]);
    assert(data[4] == 0);
    assert(data[5] == text.len());
    assert(data.subrange(6, first) =~= text);
    lemma_stored_images(head, images, tail);
    let stored = images_at(data, first);
    let placed = placed_images(images, first);
    let sorted = sorted_by_slot(stored);
    lemma_placed_slots(images, first);
    assert(stored.len() == placed.len());
    assert forall|i: int| 0 <= i < images.len() implies (#[trigger] stored[i]).slot
        == images[i].0 by {
        assert(placed[i] == with_checksum(data, stored[i]));
    }
    lemma_main_image_is_last(images, stored);
    law_sorted_by_slot(stored, slot);
    lemma_checksums_by_slot(data, sorted, slot);
    lemma_checksums_by_slot(data, stored, slot);
    assert(data.take(body.len() as int) =~= body);
    assert(data.skip(body.len() as int) =~= tail);
    let parsed = with_checksums(data, sorted);
    assert forall|i: int, j: int| 0 <= i <= j < parsed.len() implies #[trigger] parsed[i].slot
        >= #[trigger] parsed[j].slot by {
        assert(sorted[i].slot >= sorted[j].slot);
    }
}

/// The bytes between the start and the end of a stored image are the data that
/// was put in, all of it, and the header of the next image follows at its end.
pub proof fn law_placed_images_hold_their_data(
    version: Seq<char>,
    images: Seq<(u32, Seq<u8>)>,
    i: int,
)
    requires
        container_body(version, images).len() <= usize::MAX,
        0 <= i < images.len(),
    ensures
        ({
            let body = container_body(version, images);
            let placed = placed_images(images, 6 + encode_utf8(version).len() as int);
            &&& placed.len() == images.len()
            &&& placed[i].slot == images[i].0
            &&& placed[i].crc == digest::crc16_xmodem(images[i].1)
            &&& placed[i].start <= placed[i].end <= body.len()
            &&& body.subrange(placed[i].start as int, placed[i].end as int) == images[i].1
            &&& placed[0].start == 6 + encode_utf8(version).len() + 8
            &&& i + 1 < images.len() ==> placed[i + 1].start == placed[i].end + 8
            &&& i + 1 == images.len() ==> placed[i].end == body.len()
        }),
{
    let text = encode_utf8(version);
    let head = seq![0x4cu8, 0x42u8, 0x46u8, 0x57u8, 0u8, text.len() as u8] + text;
    assert(container_body(version, images) =~= head + stored_images(images));
    lemma_placed_data(head, images, i);
}

proof fn lemma_placed_data(head: Seq<u8>, images: Seq<(u32, Seq<u8>)>, i: int)
    requires
        head.len() + stored_images(images).len() <= usize::MAX,
        0 <= i < images.len(),
    ensures
        ({
            let body = head + stored_images(images);
            let placed = placed_images(images, head.len() as int);
            &&& placed.len() == images.len()
            &&& placed[i].slot == images[i].0
            &&& placed[i].crc == digest::crc16_xmodem(images[i].1)
            &&& placed[i].start <= placed[i].end <= body.len()
            &&& body.subrange(placed[i].start as int, placed[i].end as int) == images[i].1
            &&& placed[0].start == head.len() + 8
            &&& i + 1 < images.len() ==> placed[i + 1].start == placed[i].end + 8
            &&& i + 1 == images.len() ==> placed[i].end == body.len()
        }),
    decreases images.len(),
{
    let body = head + stored_images(images);
    let (slot, bytes) = images[0];
    let rest = images.drop_first();
    let header = le_number(slot as int) + le_number(bytes.len() as int);
    let next = head + (header + bytes);
    let end = head.len() + 8 + bytes.len() as int;
    assert(body =~= next + stored_images(rest));
    assert(next.len() == end);
    let placed = placed_images(images, head.len() as int);
    let others = placed_images(rest, end);
    lemma_placed_slots(images, head.len() as int);
    lemma_placed_slots(rest, end);
    assert(placed == seq![placed[0]] + others);
    if i == 0 {
        assert(body.subrange(head.len() as int + 8, end) =~= bytes);
        if images.len() > 1 {
            assert(placed[1] == others[0]);
            lemma_placed_data(next, rest, 0);
        } else {
            assert(stored_images(rest) =~= Seq::empty());
        }
    } else {
        lemma_placed_data(next, rest, i - 1);
        assert(placed[i] == others[i - 1]);
        assert(rest[i - 1] == images[i]);
        if i + 1 < images.len() {
            assert(placed[i + 1] == others[i - 1 + 1]);
        }
    }
}

/// Nothing but a container is taken for one: it starts with the magic and the
/// format version, and a text follows that is as long as it says.
pub proof fn law_no_container(data: Seq<u8>)
    ensures
        data.len() < 4 ==> container_contents(data) == Err::<
            (Seq<char>, Seq<FirmwareContainerImage>),
            Error,
        >(Error::ShortRead),
        data.len() >= 4 && !(data[0] == 0x4c && data[1] == 0x42 && data[2] == 0x46 && data[3]
            == 0x57) ==> container_contents(data) == Err::<
            (Seq<char>, Seq<FirmwareContainerImage>),
            Error,
        >(Error::UnsupportedMagic),
        container_contents(data) matches Ok((version, _)) ==> {
            &&& data.len() >= 6 + data[5]
            &&& data[0] == 0x4c && data[1] == 0x42 && data[2] == 0x46 && data[3] == 0x57
            &&& data[4] == 0
            &&& encode_utf8(version) == data.subrange(6, 6 + data[5])
        },
        data.len() >= 5 && data[0] == 0x4c && data[1] == 0x42 && data[2] == 0x46 && data[3] == 0x57
            && data[4] != 0 ==> container_contents(data) == Err::<
            (Seq<char>, Seq<FirmwareContainerImage>),
            Error,
        >(Error::UnsupportedFormatVersion),
{
    broadcast use decode_utf8_encode_utf8;

    let magic = seq![0x4cu8, 0x42u8, 0x46u8, 0x57u8];
    if data.len() >= 4 {
        assert(data.take(4)[0] == data[0]);
        assert(data.take(4)[1] == data[1]);
        assert(data.take(4)[2] == data[2]);
        assert(data.take(4)[3] == data[3]);
        assert(magic[0] == 0x4c && magic[1] == 0x42 && magic[2] == 0x46 && magic[3] == 0x57);
        if data[0] == 0x4c && data[1] == 0x42 && data[2] == 0x46 && data[3] == 0x57 {
            assert(data.take(4) =~= magic);
        }
    }
}

/// A container that is cut off within the text of its version is refused for
/// that, and so is one whose version is no text.
pub proof fn law_cut_off_version(data: Seq<u8>)
    requires
        data.len() >= 5,
        data[0] == 0x4c && data[1] == 0x42 && data[2] == 0x46 && data[3] == 0x57,
        data[4] == 0,
    ensures
        data.len() == 5 || data.len() < 6 + data[5] ==> container_contents(data) == Err::<
            (Seq<char>, Seq<FirmwareContainerImage>),
            Error,
        >(Error::ShortRead),
        data.len() > 5 && data.len() >= 6 + data[5] && !valid_utf8(data.subrange(6, 6 + data[5]))
            ==> container_contents(data) == Err::<
            (Seq<char>, Seq<FirmwareContainerImage>),
            Error,
        >(Error::InvalidUtf8),
{
    assert(data.take(4) =~= seq![0x4cu8, 0x42u8, 0x46u8, 0x57u8]);
}

} // verus!
