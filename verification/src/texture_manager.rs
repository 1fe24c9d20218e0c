//! The texture layer registry: texture names and the layers of one array
//! texture that they were given.
//!
//! Layers are handed out densely, in the order in which names are first
//! registered, and never change afterwards. The registry decides which layer
//! a name gets and which pixel data fits a layer, and gives a name a layer
//! only once its pixel data is accepted; reading image files and uploading to
//! the array texture is the caller's part.

use vstd::prelude::*;
use crate::pixels::PixelExtent;

verus! {

/// The layer of `name` among `names`: its position, if it occurs.
pub open spec fn layer_of(names: Seq<Seq<char>>, name: Seq<char>) -> Option<int> {
    if names.contains(name) {
        Some(names.index_of(name))
    } else {
        None
    }
}

/// Whether `short` is a prefix of `long`: every name of `short` has the same
/// layer in `long`.
pub open spec fn is_prefix_of(short: Seq<Seq<char>>, long: Seq<Seq<char>>) -> bool {
    short.len() <= long.len() && long.take(short.len() as int) == short
}

/// The names after a request to register `name` with room for `capacity`
/// names: unchanged where `name` is known or no layer is free, else with
/// `name` appended.
pub open spec fn register_name(names: Seq<Seq<char>>, capacity: int, name: Seq<char>) -> Seq<
    Seq<char>,
> {
    if names.contains(name) || names.len() >= capacity {
        names
    } else {
        names.push(name)
    }
}

/// The names after registering each of `requests` in turn.
pub open spec fn register_all(
    names: Seq<Seq<char>>,
    capacity: int,
    requests: Seq<Seq<char>>,
) -> Seq<Seq<char>>
    decreases requests.len(),
{
    if requests.len() == 0 {
        names
    } else {
        register_name(
            register_all(names, capacity, requests.drop_last()),
            capacity,
            requests.last(),
        )
    }
}

/// What holds of the names of a registry with `capacity` layers: there is at
/// least one layer, no name occurs twice, and there are no more names than
/// layers.
pub open spec fn valid_names(names: Seq<Seq<char>>, capacity: int) -> bool {
    &&& 1 <= capacity <= i32::MAX
    &&& names.no_duplicates()
    &&& names.len() <= capacity
}

/// Whether pixel data of size `pixels` fills one layer of `size.0` by
/// `size.1` texels exactly.
pub open spec fn fits_layer(size: (int, int), pixels: PixelExtent) -> bool {
    &&& pixels.width == size.0
    &&& pixels.height == size.1
    &&& pixels.byte_len == layer_bytes(size)
}

/// Why a texture could not be registered.
#[derive(Clone, Copy, Debug, PartialEq, Eq, Structural)]
pub enum TextureError {
    /// The name needs a layer, and its pixel data could not be loaded.
    LoadFailed,
    /// The name needs a layer, and its pixel data does not fill one.
    WrongSize,
}

/// The error of a request to register `name`, where `pixels` is the size of
/// its loaded pixel data, or nothing where loading failed. Pixel data is
/// asked for only where the name is new and a layer is free.
pub open spec fn load_error(
    names: Seq<Seq<char>>,
    capacity: int,
    size: (int, int),
    name: Seq<char>,
    pixels: Option<PixelExtent>,
) -> Option<TextureError> {
    if names.contains(name) || names.len() >= capacity {
        None
    } else {
        match pixels {
            None => Some(TextureError::LoadFailed),
            Some(extent) => if fits_layer(size, extent) {
                None
            } else {
                Some(TextureError::WrongSize)
            },
        }
    }
}

/// The bytes of one layer of `size.0` by `size.1` texels, 4 bytes for each
/// texel.
pub open spec fn layer_bytes(size: (int, int)) -> int {
    size.0 * size.1 * 4
}

/// What a request to register a name came to.
#[derive(Clone, Copy, Debug, PartialEq, Eq, Structural)]
pub enum Registration {
    /// The name was known; nothing changed and nothing is to be uploaded.
    AlreadyRegistered { layer: usize },
    /// The name was new and got `layer`; its pixels are to be uploaded there.
    Registered { layer: usize },
    /// The name was new and every layer was taken; nothing changed.
    CapacityExceeded,
}

/// The outcome of a request to register `name`.
pub open spec fn registration_of(names: Seq<Seq<char>>, capacity: int, name: Seq<char>) -> Registration {
    if names.contains(name) {
        Registration::AlreadyRegistered { layer: names.index_of(name) as usize }
    } else if names.len() >= capacity {
        Registration::CapacityExceeded
    } else {
        Registration::Registered { layer: names.len() as usize }
    }
}

/// Names and layers of one array texture of `max_textures` layers, each
/// `texture_width` by `texture_height` texels.
#[derive(Debug)]
pub struct TextureManager {
    texture_width: i32,
    texture_height: i32,
    max_textures: i32,
    texture_array: u32,
    textures: Vec<String>,
}

impl TextureManager {
    /// The registered names; the position of a name is its layer.
    pub closed spec fn names(&self) -> Seq<Seq<char>> {
        Seq::new(self.textures@.len(), |i: int| self.textures@[i]@)
    }

    /// The number of layers.
    pub closed spec fn capacity(&self) -> int {
        self.max_textures as int
    }

    /// Width and height of every layer, in texels.
    pub closed spec fn layer_size(&self) -> (int, int) {
        (self.texture_width as int, self.texture_height as int)
    }

    /// The handle of the array texture.
    pub closed spec fn array_handle(&self) -> u32 {
        self.texture_array
    }

    /// There is at least one layer of at least one texel, no name occurs
    /// twice, and there are no more names than layers.
    pub open spec fn wf(&self) -> bool {
        &&& valid_names(self.names(), self.capacity())
        &&& self.layer_size().0 >= 1
        &&& self.layer_size().1 >= 1
    }

    /// An empty registry for the array texture `texture_array`, which the
    /// caller has allocated with `max_textures` layers of `texture_width` by
    /// `texture_height` texels.
    pub fn new(texture_width: i32, texture_height: i32, max_textures: i32, texture_array: u32) -> (r: Self)
        requires
            texture_width >= 1,
            texture_height >= 1,
            max_textures >= 1,
        ensures
            r.wf(),
            r.names() == Seq::<Seq<char>>::empty(),
            r.capacity() == max_textures,
            r.layer_size() == (texture_width as int, texture_height as int),
            r.array_handle() == texture_array,
    {
        let r = TextureManager {
            texture_width,
            texture_height,
            max_textures,
            texture_array,
            textures: Vec::new(),
        };
        assert(r.names() =~= Seq::<Seq<char>>::empty());
        r
    }

    /// What a request to register `texture_name` would come to. Nothing
    /// changes; pixel data is needed only where the answer is `Registered`.
    pub fn registration(&self, texture_name: &str) -> (r: Registration)
        requires
            self.wf(),
        ensures
            r == registration_of(self.names(), self.capacity(), texture_name@),
    {
        if let Some(layer) = self.get_texture_index(texture_name) {
            return Registration::AlreadyRegistered { layer };
        }
        let texture_index: usize = self.textures.len();
        if texture_index >= self.max_textures as usize {
            return Registration::CapacityExceeded;
        }
        Registration::Registered { layer: texture_index }
    }

    /// Registers `texture_name`. A known name keeps its layer; a new one gets
    /// the next free layer, if there is one and its pixel data fills a
    /// layer.
    ///
    /// `pixels` is the size of the loaded pixel data of the texture, or
    /// nothing where loading failed. It is read only where the name is new
    /// and a layer is free; a failed load or data of another size is then an
    /// error, and the registry stays as it was.
    pub fn add_texture(&mut self, texture_name: &str, pixels: Option<PixelExtent>) -> (r: Result<
        Registration,
        TextureError,
    >)
        requires
            old(self).wf(),
        ensures
            final(self).wf(),
            final(self).capacity() == old(self).capacity(),
            final(self).layer_size() == old(self).layer_size(),
            final(self).array_handle() == old(self).array_handle(),
            match load_error(
                old(self).names(),
                old(self).capacity(),
                old(self).layer_size(),
                texture_name@,
                pixels,
            ) {
                Some(error) => r == Err::<Registration, TextureError>(error) && final(self).names()
                    == old(self).names(),
                None => {
                    &&& r == Ok::<Registration, TextureError>(
                        registration_of(old(self).names(), old(self).capacity(), texture_name@),
                    )
                    &&& final(self).names() == register_name(
                        old(self).names(),
                        old(self).capacity(),
                        texture_name@,
                    )
                },
            },
    {
        let plan = self.registration(texture_name);
        if let Registration::Registered { layer } = plan {
            match pixels {
                None => {
                    return Err(TextureError::LoadFailed);
                },
                Some(extent) => {
                    if !self.accepts_pixels(extent.width, extent.height, extent.byte_len) {
                        return Err(TextureError::WrongSize);
                    }
                },
            }
            self.textures.push(texture_name.to_owned());
            proof {
                assert(self.names() =~= old(self).names().push(texture_name@));
            }
        }
        Ok(plan)
    }

    /// The layer of `texture`, if it is registered.
    pub fn get_texture_index(&self, texture: &str) -> (r: Option<usize>)
        requires
            self.wf(),
        ensures
            match r {
                Some(layer) => layer_of(self.names(), texture@) == Some(layer as int),
                None => layer_of(self.names(), texture@).is_none(),
            },
    {
        let key = texture.to_owned();
        let mut i: usize = 0;
        while i < self.textures.len()
            invariant
                self.wf(),
                i <= self.textures.len(),
                key@ == texture@,
                forall|j: int| 0 <= j < i ==> self.names()[j] != texture@,
            decreases self.textures.len() - i,
        {
            if self.textures[i] == key {
                proof {
                    let names = self.names();
                    assert(names[i as int] == texture@);
                    assert(names.contains(texture@));
                    let k = names.index_of(texture@);
                    assert(0 <= k < names.len() && names[k] == texture@);
                }
                return Some(i);
            }
            i += 1;
        }
        None
    }

    /// The number of registered names, which is also the next free layer.
    pub fn len(&self) -> (r: usize)
        ensures
            r == self.names().len(),
    {
        self.textures.len()
    }

    /// The name that holds `layer`, if one does.
    pub fn texture_name(&self, layer: usize) -> (r: Option<&str>)
        ensures
            r.is_some() == (layer < self.names().len()),
            match r {
                Some(name) => name@ == self.names()[layer as int],
                None => true,
            },
    {
        if layer < self.textures.len() {
            Some(self.textures[layer].as_str())
        } else {
            None
        }
    }

    /// The bytes that fill one layer, if `width` and `height` are the
    /// dimensions of the layers and that many bytes can be addressed.
    pub fn layer_len(&self, width: u32, height: u32) -> (r: Option<usize>)
        ensures
            r.is_some() == (width == self.layer_size().0 && height == self.layer_size().1
                && layer_bytes(self.layer_size()) <= usize::MAX),
            match r {
                Some(len) => len == layer_bytes(self.layer_size()),
                None => true,
            },
    {
        if self.texture_width < 0 || self.texture_height < 0 {
            return None;
        }
        let layer_width: u64 = self.texture_width as u64;
        let layer_height: u64 = self.texture_height as u64;
        if width as u64 != layer_width || height as u64 != layer_height {
            return None;
        }
        assert(layer_width * layer_height * 4 <= 0x7fff_ffff * 0x7fff_ffff * 4) by (nonlinear_arith)
            requires
                layer_width <= 0x7fff_ffff,
                layer_height <= 0x7fff_ffff,
        ;
        let bytes: u64 = layer_width * layer_height * 4;
        if bytes > usize::MAX as u64 {
            return None;
        }
        Some(bytes as usize)
    }

    /// Whether pixel data of `width` by `height` texels in `byte_len` bytes
    /// fills one layer exactly: the dimensions are those of the layers, and
    /// there are 4 bytes for each texel.
    pub fn accepts_pixels(&self, width: u32, height: u32, byte_len: usize) -> (r: bool)
        ensures
            r == (width == self.layer_size().0 && height == self.layer_size().1 && byte_len
                == layer_bytes(self.layer_size())),
    {
        match self.layer_len(width, height) {
            Some(len) => len == byte_len,
            None => false,
        }
    }

    pub fn texture_width(&self) -> (r: i32)
        ensures
            r == self.layer_size().0,
    {
        self.texture_width
    }

    pub fn texture_height(&self) -> (r: i32)
        ensures
            r == self.layer_size().1,
    {
        self.texture_height
    }

    pub fn max_textures(&self) -> (r: i32)
        ensures
            r == self.capacity(),
    {
        self.max_textures
    }

    pub fn texture_array(&self) -> (r: u32)
        ensures
            r == self.array_handle(),
    {
        self.texture_array
    }
}

} // verus!
