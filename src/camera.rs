use vstd::prelude::*;

verus! {

/// Names a camera registered in a `CameraStore`.
#[derive(Clone, Copy, Debug, PartialEq, Eq, Structural)]
pub struct CameraHandle(pub usize);

/// Every camera of a scene, each known by its handle.
pub struct CameraStore<C> {
    pub cameras: Vec<C>,
}

impl<C> CameraStore<C> {
    pub fn new() -> (r: CameraStore<C>)
        ensures
            r.cameras@.len() == 0,
    {
        CameraStore { cameras: Vec::new() }
    }

    /// Registers `camera`; its handle is the number of cameras before it.
    pub fn add_camera(&mut self, camera: C) -> (r: CameraHandle)
        ensures
            r.0 == old(self).cameras@.len(),
            final(self).cameras@ == old(self).cameras@.push(camera),
    {
        let handle = CameraHandle(self.cameras.len());
        self.cameras.push(camera);
        handle
    }

    /// The camera registered under `handle`.
    pub fn get(&self, handle: CameraHandle) -> (r: &C)
        requires
            handle.0 < self.cameras@.len(),
        ensures
            *r == self.cameras@[handle.0 as int],
    {
        &self.cameras[handle.0]
    }
}

} // verus!
