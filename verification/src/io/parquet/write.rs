//! Writing arrays as Parquet data pages.
use vstd::prelude::*;
use crate::error::Error;

pub mod binary;
pub mod utils;

pub use binary::array_to_page_v1;

verus! {

/// The compression that a page asks for.
#[derive(Debug, Clone, Copy, PartialEq, Eq, Structural, Hash)]
pub enum Compression {
    Uncompressed,
    Snappy,
    Gzip,
    Lzo,
    Brotli,
    Lz4,
    Zstd,
    Lz4Raw,
}

/// The compression codecs that this crate can instantiate.
#[derive(Debug, Clone, Copy, PartialEq, Eq, Structural, Hash)]
pub enum Codec {
    Snappy,
    Gzip,
    Brotli,
    Lz4Raw,
}

/// How the values or the levels of a page are encoded.
#[derive(Debug, Clone, Copy, PartialEq, Eq, Structural, Hash)]
pub enum Encoding {
    /// Values stored verbatim; byte arrays with a 4-byte little-endian length before them.
    Plain,
    /// Deprecated dictionary encoding.
    PlainDictionary,
    /// Run-length and bit-packed hybrid. Usable for levels and booleans.
    Rle,
    /// Bit packed encoding.
    BitPacked,
    /// Delta encoding for integers.
    DeltaBinaryPacked,
    /// The lengths of byte arrays, delta encoded, before the bytes.
    DeltaLengthByteArray,
    /// Incremental-encoded byte arrays.
    DeltaByteArray,
    /// Dictionary encoding: the ids are encoded using the RLE encoding.
    RleDictionary,
    /// The bytes of each value scattered over as many streams as the value has bytes.
    ByteStreamSplit,
}

/// Statistics of the values of a page, in their physical encoding.
#[derive(Debug)]
pub struct Statistics {
    pub null_count: Option<i64>,
    pub distinct_count: Option<i64>,
    pub max_value: Option<Vec<u8>>,
    pub min_value: Option<Vec<u8>>,
}

/// The header of a data page of the first version of the format.
#[derive(Debug)]
pub struct DataPageHeader {
    /// The number of values, nulls included.
    pub num_values: i32,
    /// The encoding of the values.
    pub encoding: Encoding,
    /// The encoding of the definition levels.
    pub definition_level_encoding: Encoding,
    /// The encoding of the repetition levels.
    pub repetition_level_encoding: Encoding,
    /// Statistics of the values, if any were gathered.
    pub statistics: Option<Statistics>,
}

/// The header of a page.
#[derive(Debug)]
pub enum PageHeader {
    V1(DataPageHeader),
}

/// A page as it is stored: its header, and its bytes after compression.
#[derive(Debug)]
pub struct CompressedPage {
    pub header: PageHeader,
    pub buffer: Vec<u8>,
    pub compression: Compression,
    pub uncompressed_page_size: usize,
}

impl CompressedPage {
    /// A page of these parts.
    pub fn new(
        header: PageHeader,
        buffer: Vec<u8>,
        compression: Compression,
        uncompressed_page_size: usize,
    ) -> (page: CompressedPage)
        ensures
            page.header == header,
            page.buffer == buffer,
            page.compression == compression,
            page.uncompressed_page_size == uncompressed_page_size,
    {
        CompressedPage { header, buffer, compression, uncompressed_page_size }
    }

    /// The number of bytes of the page before compression.
    pub fn uncompressed_size(&self) -> (n: usize)
        ensures
            n == self.uncompressed_page_size,
    {
        self.uncompressed_page_size
    }

    /// The number of bytes of the page as it is stored.
    pub fn compressed_size(&self) -> (n: usize)
        ensures
            n == self.buffer@.len(),
    {
        self.buffer.len()
    }

    /// The number of values that the header declares.
    pub fn num_values(&self) -> (n: i32)
        ensures
            n == match self.header {
                PageHeader::V1(h) => h.num_values,
            },
    {
        match &self.header {
            PageHeader::V1(h) => h.num_values,
        }
    }
}

/// The codec that a compression is done with: `Some(None)` where nothing
/// is to be compressed, `None` where this crate has no codec for it.
pub open spec fn codec_of(compression: Compression) -> Option<Option<Codec>> {
    match compression {
        Compression::Uncompressed => Some(None),
        Compression::Snappy => Some(Some(Codec::Snappy)),
        Compression::Gzip => Some(Some(Codec::Gzip)),
        Compression::Brotli => Some(Some(Codec::Brotli)),
        Compression::Lz4Raw => Some(Some(Codec::Lz4Raw)),
        Compression::Lzo => None,
        Compression::Lz4 => None,
        Compression::Zstd => None,
    }
}

/// Instantiates the codec of a compression; `None` where nothing is to be compressed.
/// # Errors
/// Errors iff this crate has no codec for the compression.
pub fn create_codec(compression: &Compression) -> (r: Result<Option<Codec>, Error>)
    ensures
        match r {
            Ok(codec) => codec_of(*compression) == Some(codec),
            Err(e) => codec_of(*compression) is None && e is Codec,
        },
{
    match compression {
        Compression::Uncompressed => Ok(None),
        Compression::Snappy => Ok(Some(Codec::Snappy)),
        Compression::Gzip => Ok(Some(Codec::Gzip)),
        Compression::Brotli => Ok(Some(Codec::Brotli)),
        Compression::Lz4Raw => Ok(Some(Codec::Lz4Raw)),
        Compression::Lzo => Err(Error::Codec("the codec LZO is not supported".to_owned())),
        Compression::Lz4 => Err(Error::Codec("the codec LZ4 is not supported".to_owned())),
        Compression::Zstd => Err(Error::Codec("the codec ZSTD is not active".to_owned())),
    }
}

/// What a codec makes of the bytes of a page; `None` where it fails.
pub uninterp spec fn compressed(codec: Codec, input: Seq<u8>) -> Option<Seq<u8>>;

/// Calls `parquet2::compression::compress` with the codec's default level on
/// an empty output buffer: the compressed bytes, which depend on the codec
/// and the input alone, or the message of the codec's error.
#[verifier::external_body]
pub(crate) fn compress(codec: Codec, input: &Vec<u8>) -> (r: Result<Vec<u8>, String>)
    ensures
        compressed(codec, input@) == match r {
            Ok(bytes) => Some(bytes@),
            Err(_) => None,
        },
{
    let options = match codec {
        Codec::Snappy => parquet2::compression::CompressionOptions::Snappy,
        Codec::Gzip => parquet2::compression::CompressionOptions::Gzip(None),
        Codec::Brotli => parquet2::compression::CompressionOptions::Brotli(None),
        Codec::Lz4Raw => parquet2::compression::CompressionOptions::Lz4Raw,
    };
    let mut output = Vec::new();
    let done = parquet2::compression::compress(options, input, &mut output);
    done.map(|_| output).map_err(|e| e.to_string())
}

/// The page that is stored for `num_values` values: a header of the first
/// version that declares plain values, run-length encoded levels and no
/// statistics, around the given bytes.
pub fn page_v1(
    num_values: usize,
    buffer: Vec<u8>,
    compression: Compression,
    uncompressed_page_size: usize,
) -> (page: CompressedPage)
    ensures
        page.header == PageHeader::V1(
            DataPageHeader {
                num_values: num_values as i32,
                encoding: Encoding::Plain,
                definition_level_encoding: Encoding::Rle,
                repetition_level_encoding: Encoding::Rle,
                statistics: None,
            },
        ),
        page.buffer == buffer,
        page.compression == compression,
        page.uncompressed_page_size == uncompressed_page_size,
{
    let header = PageHeader::V1(
        DataPageHeader {
            num_values: num_values as i32,
            encoding: Encoding::Plain,
            definition_level_encoding: Encoding::Rle,
            repetition_level_encoding: Encoding::Rle,
            statistics: None,
        },
    );
    CompressedPage::new(header, buffer, compression, uncompressed_page_size)
}

/// The page that is stored once the bytes before compression are known and
/// the codec, if there is one, has been run on them.
/// # Errors
/// Errors iff the codec has failed.
pub fn finish_page(
    num_values: usize,
    buffer: Vec<u8>,
    compression: Compression,
    outcome: Option<Result<Vec<u8>, Error>>,
) -> (r: Result<CompressedPage, Error>)
    ensures
        match outcome {
            None => r == Ok::<CompressedPage, Error>(
                page_v1_spec(num_values, buffer, compression, buffer@.len()),
            ),
            Some(Ok(bytes)) => r == Ok::<CompressedPage, Error>(
                page_v1_spec(num_values, bytes, compression, buffer@.len()),
            ),
            Some(Err(e)) => r == Err::<CompressedPage, Error>(e),
        },
{
    let uncompressed_page_size = buffer.len();
    let buffer = match outcome {
        None => buffer,
        Some(Ok(bytes)) => bytes,
        Some(Err(e)) => {
            return Err(e);
        },
    };
    Ok(page_v1(num_values, buffer, compression, uncompressed_page_size))
}

/// The page of [`page_v1`].
pub open spec fn page_v1_spec(
    num_values: usize,
    buffer: Vec<u8>,
    compression: Compression,
    uncompressed_page_size: nat,
) -> CompressedPage {
    CompressedPage {
        header: PageHeader::V1(
            DataPageHeader {
                num_values: num_values as i32,
                encoding: Encoding::Plain,
                definition_level_encoding: Encoding::Rle,
                repetition_level_encoding: Encoding::Rle,
                statistics: None,
            },
        ),
        buffer,
        compression,
        uncompressed_page_size: uncompressed_page_size as usize,
    }
}

} // verus!
