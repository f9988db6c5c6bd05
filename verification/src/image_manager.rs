//! The textures that hold decoded images, by the item they belong to.

use vstd::prelude::*;
use std::collections::HashMap;

verus! {

/// A decoded image that has been handed to the renderer.
#[derive(Debug, Clone, Copy)]
pub struct Image {
    /// The number under which the renderer keeps the texture.
    pub id: u64,
    /// The width and the height of the image.
    pub size: (usize, usize),
}

impl Image {
    /// The image of the size `size` that the renderer keeps as texture `id`.
    pub fn new(id: u64, size: (usize, usize)) -> (image: Image)
        ensures
            image == (Image { id, size }),
    {
        Image { id, size }
    }
}

/// The images that the renderer holds, each under the index of its item.
pub struct ImageManager {
    images: HashMap<usize, Image>,
}

impl View for ImageManager {
    type V = Map<usize, Image>;

    closed spec fn view(&self) -> Map<usize, Image> {
        self.images@
    }
}

impl ImageManager {
    /// No images at all.
    pub fn new() -> (manager: ImageManager)
        ensures
            manager@ == Map::<usize, Image>::empty(),
    {
        ImageManager { images: HashMap::new() }
    }

    /// Keeps the texture `id` of the size `size` as the image of item `post_id`,
    /// in place of an earlier one, and hands the image back.
    pub fn store(&mut self, post_id: usize, id: u64, size: (usize, usize)) -> (stored: Option<
        Image,
    >)
        ensures
            stored == Some(Image { id, size }),
            final(self)@ == old(self)@.insert(post_id, Image { id, size }),
    {
        broadcast use vstd::std_specs::hash::group_hash_axioms;

        let image = Image::new(id, size);
        self.images.insert(post_id, image);
        Some(image)
    }

    /// The image of item `post_id`, if one is kept.
    pub fn get(&self, post_id: &usize) -> (image: Option<&Image>)
        ensures
            image == if self@.contains_key(*post_id) {
                Some(&self@[*post_id])
            } else {
                None
            },
    {
        broadcast use vstd::std_specs::hash::group_hash_axioms;

        self.images.get(post_id)
    }
}

impl Default for ImageManager {
    fn default() -> (manager: ImageManager)
        ensures
            manager@ == Map::<usize, Image>::empty(),
    {
        ImageManager::new()
    }
}

} // verus!
