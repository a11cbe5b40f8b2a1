//! The CPU textures owned by a workspace, addressed by handle and versioned
//! so that the renderer can re-upload the ones that changed.
use vstd::prelude::*;
use crate::material::{Texture, TextureError, TextureHandle, rgba8_check};

verus! {

/// The textures of a workspace, each with the revision at which it was last
/// added, replaced or handed out for editing.
#[derive(Clone)]
pub struct WorkspaceTextures {
    textures: Vec<Texture>,
    texture_revisions: Vec<u64>,
    texture_revision: u64,
    changes: Ghost<nat>,
}

/// The revision counter after one more change.
pub open spec fn next_revision(revision: u64) -> u64 {
    if revision == u64::MAX { 0 } else { (revision + 1) as u64 }
}

impl WorkspaceTextures {
    /// The stored textures, in handle order.
    pub closed spec fn textures(&self) -> Seq<Texture> {
        self.textures@
    }

    /// The revision of each stored texture, in handle order.
    pub closed spec fn revisions(&self) -> Seq<u64> {
        self.texture_revisions@
    }

    /// The revision counter: the revision given to the latest change.
    pub closed spec fn revision(&self) -> u64 {
        self.texture_revision
    }

    /// How many changes the store has seen: additions, replacements and
    /// textures handed out for editing.
    pub closed spec fn changes(&self) -> nat {
        self.changes@
    }

    /// Every stored texture has a revision; until the counter wraps, the
    /// counter is the number of changes and no texture's revision is past it.
    pub open spec fn wf(&self) -> bool {
        &&& self.textures().len() == self.revisions().len()
        &&& self.changes() <= u64::MAX ==> {
            &&& self.revision() == self.changes()
            &&& forall|i: int| 0 <= i < self.revisions().len() ==> #[trigger] self.revisions()[i] <= self.revision()
        }
    }

    /// Creates an empty texture store.
    pub fn new() -> (store: Self)
        ensures
            store.wf(),
            store.textures() == Seq::<Texture>::empty(),
            store.revision() == 0,
            store.changes() == 0,
    {
        Self { textures: Vec::new(), texture_revisions: Vec::new(), texture_revision: 0, changes: Ghost(0) }
    }

    /// Takes ownership of a validated CPU-side texture and returns its handle.
    pub fn add_texture(&mut self, texture: Texture) -> (handle: Result<TextureHandle, TextureError>)
        requires
            old(self).wf(),
        ensures
            final(self).wf(),
            match rgba8_check(texture.width, texture.height, texture.pixels@.len() as int) {
                Ok(()) => handle matches Ok(h) && h.0 == old(self).textures().len()
                    && final(self).textures() == old(self).textures().push(texture)
                    && final(self).revision() == next_revision(old(self).revision())
                    && final(self).revisions() == old(self).revisions().push(final(self).revision())
                    && final(self).changes() == old(self).changes() + 1,
                Err(error) => handle matches Err(e) && e == error && *final(self) == *old(self),
            },
    {
        match texture.validate() {
            Ok(()) => {},
            Err(error) => return Err(error),
        }
        let handle = TextureHandle(self.textures.len());
        self.textures.push(texture);
        self.texture_revision = self.texture_revision.wrapping_add(1);
        self.texture_revisions.push(self.texture_revision);
        self.changes = Ghost(self.changes@ + 1);
        Ok(handle)
    }

    /// Returns a CPU-side texture by its handle.
    pub fn get_texture(&self, handle: TextureHandle) -> (texture: Option<&Texture>)
        requires
            self.wf(),
        ensures
            handle.0 < self.textures().len() ==> (texture matches Some(t) && *t == self.textures()[handle.0 as int]),
            handle.0 >= self.textures().len() ==> texture is None,
    {
        if handle.0 < self.textures.len() {
            Some(&self.textures[handle.0])
        } else {
            None
        }
    }

    /// Returns the revision of a texture, bumped by every
    /// [`add_texture`](Self::add_texture), [`get_texture_mut`](Self::get_texture_mut)
    /// and [`with_texture`](Self::with_texture) call for its handle.
    pub fn texture_version(&self, handle: TextureHandle) -> (version: Option<u64>)
        requires
            self.wf(),
        ensures
            handle.0 < self.revisions().len() ==> version == Some(self.revisions()[handle.0 as int]),
            handle.0 >= self.revisions().len() ==> version is None,
    {
        if handle.0 < self.texture_revisions.len() {
            Some(self.texture_revisions[handle.0])
        } else {
            None
        }
    }

    /// Returns a mutable CPU-side texture by its handle, marking it changed
    /// even if it is not modified.
    pub fn get_texture_mut(&mut self, handle: TextureHandle) -> (texture: Option<&mut Texture>)
        requires
            old(self).wf(),
        ensures
            final(self).wf(),
            handle.0 < old(self).textures().len() ==> (texture matches Some(t)
                && *t == old(self).textures()[handle.0 as int]
                && final(self).textures() == old(self).textures().update(handle.0 as int, *final(t))
                && final(self).revision() == next_revision(old(self).revision())
                && final(self).revisions() == old(self).revisions().update(handle.0 as int, final(self).revision())
                && final(self).changes() == old(self).changes() + 1
                && (old(self).changes() < u64::MAX ==> old(self).revisions()[handle.0 as int] < final(self).revisions()[handle.0 as int])),
            handle.0 >= old(self).textures().len() ==> (texture is None && *final(self) == *old(self)),
    {
        if handle.0 >= self.textures.len() {
            return None;
        }
        self.texture_revision = self.texture_revision.wrapping_add(1);
        self.texture_revisions.set(handle.0, self.texture_revision);
        self.changes = Ghost(self.changes@ + 1);
        Some(&mut self.textures[handle.0])
    }

    /// Replaces the texture stored under `handle` with a validated texture,
    /// marking it changed. Dimensions and color space may change.
    pub fn with_texture(&mut self, handle: TextureHandle, texture: Texture) -> (this: Result<&mut Self, TextureError>)
        requires
            old(self).wf(),
        ensures
            match rgba8_check(texture.width, texture.height, texture.pixels@.len() as int) {
                Err(error) => (this matches Err(e) && e == error) && *final(self) == *old(self),
                Ok(()) => if handle.0 < old(self).textures().len() {
                    this matches Ok(s) && *final(self) == *final(s) && s.wf()
                        && s.textures() == old(self).textures().update(handle.0 as int, texture)
                        && s.revision() == next_revision(old(self).revision())
                        && s.revisions() == old(self).revisions().update(handle.0 as int, s.revision())
                        && s.changes() == old(self).changes() + 1
                        && (old(self).changes() < u64::MAX ==> old(self).revisions()[handle.0 as int] < s.revisions()[handle.0 as int])
                } else {
                    (this matches Err(e) && e == (TextureError::InvalidHandle { index: handle.0 }))
                        && *final(self) == *old(self)
                },
            },
    {
        match texture.validate() {
            Ok(()) => {},
            Err(error) => return Err(error),
        }
        if handle.0 >= self.textures.len() {
            return Err(TextureError::InvalidHandle { index: handle.0 });
        }
        self.textures.set(handle.0, texture);
        self.texture_revision = self.texture_revision.wrapping_add(1);
        self.texture_revisions.set(handle.0, self.texture_revision);
        self.changes = Ghost(self.changes@ + 1);
        Ok(self)
    }
}

/// Every change gives its texture a revision different from the one the
/// counter held before, so a cache keyed by the previous revision sees it.
pub proof fn law_every_change_moves_the_revision(revision: u64)
    ensures
        next_revision(revision) != revision,
{
}

} // verus!
