use vstd::prelude::*;

verus! {

/// Names a material registered in a `MaterialStore`.
#[derive(Clone, Copy, Debug, PartialEq, Eq, Structural)]
pub struct MaterialHandle(pub usize);

/// Every material of a scene, each known by its handle.
pub struct MaterialStore<M> {
    pub materials: Vec<M>,
}

impl<M> MaterialStore<M> {
    pub fn new() -> (r: MaterialStore<M>)
        ensures
            r.materials@.len() == 0,
    {
        MaterialStore { materials: Vec::new() }
    }

    /// Registers `material`; its handle is the number of materials before it.
    pub fn add_material(&mut self, material: M) -> (r: MaterialHandle)
        ensures
            r.0 == old(self).materials@.len(),
            final(self).materials@ == old(self).materials@.push(material),
    {
        let handle = MaterialHandle(self.materials.len());
        self.materials.push(material);
        handle
    }

    /// The material registered under `handle`.
    pub fn get(&self, handle: MaterialHandle) -> (r: &M)
        requires
            handle.0 < self.materials@.len(),
        ensures
            *r == self.materials@[handle.0 as int],
    {
        &self.materials[handle.0]
    }
}

/// A handle names what was registered under it, whatever is registered
/// after it.
pub proof fn lemma_handle_stable<M>(before: Seq<M>, added: Seq<M>, handle: MaterialHandle)
    requires
        handle.0 < before.len(),
    ensures
        (before + added)[handle.0 as int] == before[handle.0 as int],
{
}

/// Diffuse material; `albedo_gen` gives the albedo at each shading point.
pub struct Lambertian<AG> {
    pub albedo_gen: AG,
}

impl<AG> Lambertian<AG> {
    pub fn new(albedo_gen: AG) -> (r: Self)
        ensures
            r.albedo_gen == albedo_gen,
    {
        Self { albedo_gen }
    }
}

/// Fresnel-weighted mix of a diffuse lobe and a rough specular lobe.
pub struct Dielectric<AG, RG> {
    pub albedo_gen: AG,
    pub roughness_gen: RG,
}

impl<AG, RG> Dielectric<AG, RG> {
    pub fn new(albedo_gen: AG, roughness_gen: RG) -> (r: Self)
        ensures
            r.albedo_gen == albedo_gen,
            r.roughness_gen == roughness_gen,
    {
        Self { albedo_gen, roughness_gen }
    }
}

/// Specular-only material whose Fresnel term starts at reflectance `f0`.
pub struct Metallic<FG, RG> {
    pub f0_gen: FG,
    pub roughness_gen: RG,
}

impl<FG, RG> Metallic<FG, RG> {
    pub fn new(f0_gen: FG, roughness_gen: RG) -> (r: Self)
        ensures
            r.f0_gen == f0_gen,
            r.roughness_gen == roughness_gen,
    {
        Self { f0_gen, roughness_gen }
    }
}

/// Material that emits `emission_gen`'s radiance and scatters diffusely.
pub struct Emissive<EG> {
    pub emission_gen: EG,
}

impl<EG> Emissive<EG> {
    pub fn new(emission_gen: EG) -> (r: Self)
        ensures
            r.emission_gen == emission_gen,
    {
        Self { emission_gen }
    }
}

/// The sky: its surface emits the sky gradient and scatters nothing.
#[derive(Clone, Copy, Debug, PartialEq, Eq, Structural)]
pub struct Sky {}

/// Scattering model built from a `Lambertian` at one shading point.
#[derive(Clone, Copy, Debug)]
pub struct LambertianBSDF<S> {
    pub albedo: S,
}

/// Scattering model built from a `Dielectric` at one shading point.
#[derive(Clone, Copy, Debug)]
pub struct DielectricBSDF<S, R> {
    pub albedo: S,
    pub roughness: R,
}

/// Scattering model built from a `Metallic` at one shading point.
#[derive(Clone, Copy, Debug)]
pub struct MetallicBSDF<S, R> {
    pub f0: S,
    pub roughness: R,
}

/// Scattering model of the sky.
#[derive(Clone, Copy, Debug, PartialEq, Eq, Structural)]
pub struct SkyBSDF {}

/// Scattering model that scatters as `inner` does and emits `emission`.
#[derive(Clone, Copy, Debug)]
pub struct EmissiveBSDF<I, S> {
    pub inner: I,
    pub emission: S,
}

impl<S> LambertianBSDF<S> {
    /// A diffuse surface always scatters.
    pub fn scatters(&self) -> (r: bool)
        ensures
            r,
    {
        true
    }
}

impl<S, R> DielectricBSDF<S, R> {
    /// Either lobe always scatters.
    pub fn scatters(&self) -> (r: bool)
        ensures
            r,
    {
        true
    }
}

impl<S, R> MetallicBSDF<S, R> {
    /// A specular surface always scatters.
    pub fn scatters(&self) -> (r: bool)
        ensures
            r,
    {
        true
    }
}

impl SkyBSDF {
    /// The sky declines every further bounce.
    pub fn scatters(&self) -> (r: bool)
        ensures
            !r,
    {
        false
    }
}

impl<S> EmissiveBSDF<LambertianBSDF<S>, S> {
    /// An emitter scatters through its diffuse inner model.
    pub fn scatters(&self) -> (r: bool)
        ensures
            r,
    {
        self.inner.scatters()
    }
}

} // verus!
