//! The server's resource registry: which resources exist, what kind each
//! one is, and which batch of them each connection stage loads.

use vstd::prelude::*;

verus! {

/// The kinds of resource the client knows how to load.
#[derive(Debug, Clone, Copy, PartialEq, Eq, Structural)]
pub enum ResourceType {
    SwfLibrary,
    A3D,
    MovieClip,
    Sound,
    Model3DS,
    Image,
    MultiframeImage,
    LocalizedImage,
}

impl ResourceType {
    /// The numeric tag a resource type travels as.
    pub open spec fn spec_value(self) -> u64 {
        match self {
            ResourceType::SwfLibrary => 1,
            ResourceType::A3D => 2,
            ResourceType::MovieClip => 3,
            ResourceType::Sound => 4,
            ResourceType::Model3DS => 9,
            ResourceType::Image => 10,
            ResourceType::MultiframeImage => 11,
            ResourceType::LocalizedImage => 13,
        }
    }

    /// The numeric tag a resource type travels as.
    pub fn value(&self) -> (r: u64)
        ensures
            r == self.spec_value(),
    {
        match self {
            ResourceType::SwfLibrary => 1,
            ResourceType::A3D => 2,
            ResourceType::MovieClip => 3,
            ResourceType::Sound => 4,
            ResourceType::Model3DS => 9,
            ResourceType::Image => 10,
            ResourceType::MultiframeImage => 11,
            ResourceType::LocalizedImage => 13,
        }
    }
}

/// When, in a connection's life, a batch of resources is loaded.
#[derive(Debug, PartialEq, Eq, PartialOrd, Ord, Clone, Copy, Structural)]
pub enum ResourceStage {
    Auth,
    Connect,
    Lobby,
}

/// A resource description as it stands in the registry files: split ids, a
/// numeric type tag and the per-type extras. The halves of the 64-bit ids
/// travel separately; the textual form the files use for the high halves is
/// converted at the edge.
#[derive(Debug, Clone, PartialEq, Default)]
pub struct Resource {
    pub idhigh: u64,
    pub idlow: u32,
    pub versionhigh: u64,
    pub versionlow: u32,
    pub resource_type: i64,
    pub lazy: bool,
    pub alpha: Option<bool>,
    pub weight: Option<u32>,
    pub height: Option<u32>,
    pub num_frames: Option<u32>,
    pub fps: Option<u32>,
    pub file_names: Option<Vec<String>>,
}

/// What a resource is, with the extras its kind carries.
#[derive(Debug, Clone, PartialEq)]
pub enum ResourceInfo {
    SwfLibrary,
    A3D,
    MovieClip,
    Sound,
    Model3DS,
    GameMap,
    PropLib,
    Image { alpha: bool },
    MultiframeImage { fps: u32, height: u32, width: u32, frames: u32 },
    LocalizedImage { file_names: Vec<String>, alpha: bool },
    Tanks3DS,
}

/// The numeric type tag of a resource kind.
pub open spec fn info_tag(info: ResourceInfo) -> i64 {
    match info {
        ResourceInfo::SwfLibrary => 1,
        ResourceInfo::A3D => 2,
        ResourceInfo::MovieClip => 3,
        ResourceInfo::Sound => 4,
        ResourceInfo::GameMap => 7,
        ResourceInfo::PropLib => 8,
        ResourceInfo::Model3DS => 9,
        ResourceInfo::Image { .. } => 10,
        ResourceInfo::MultiframeImage { .. } => 11,
        ResourceInfo::LocalizedImage { .. } => 13,
        ResourceInfo::Tanks3DS => 17,
    }
}

/// The character views of a list of localized file names.
pub open spec fn name_views(names: Seq<String>) -> Seq<Seq<char>> {
    Seq::new(names.len(), |i: int| names[i]@)
}

/// Field-wise sameness of two resource kinds, comparing localized file
/// names by their characters.
pub open spec fn info_like(a: ResourceInfo, b: ResourceInfo) -> bool {
    match (a, b) {
        (
            ResourceInfo::LocalizedImage { file_names: fa, alpha: aa },
            ResourceInfo::LocalizedImage { file_names: fb, alpha: ab },
        ) => aa == ab && name_views(fa@) == name_views(fb@),
        _ => a == b,
    }
}

/// Field-wise sameness of two resources, comparing localized file names by
/// their characters.
pub open spec fn resource_like(a: ServerResource, b: ServerResource) -> bool {
    a.id == b.id && a.version == b.version && a.lazy == b.lazy && info_like(a.info, b.info)
}

/// Copies a list of localized file names; the copy holds the same
/// characters.
fn clone_names(names: &Vec<String>) -> (r: Vec<String>)
    ensures
        name_views(r@) == name_views(names@),
{
    let mut r: Vec<String> = Vec::new();
    let mut i: usize = 0;
    while i < names.len()
        invariant
            i <= names@.len(),
            name_views(r@) == name_views(names@.take(i as int)),
        decreases names@.len() - i,
    {
        let ghost prev = r@;
        proof {
            assert(name_views(prev).len() == prev.len());
            assert(name_views(names@.take(i as int)).len() == i);
            assert(prev.len() == i);
        }
        r.push(names[i].clone());
        proof {
            assert(r@.drop_last() =~= prev);
            assert(r@.last()@ == names@[i as int]@);
            assert forall|t: int|
                0 <= t < i + 1 implies #[trigger] name_views(r@)[t] == name_views(
                names@.take(i + 1),
            )[t] by {
                if t < i {
                    assert(r@[t] == prev[t]);
                    assert(name_views(prev)[t] == name_views(names@.take(i as int))[t]);
                    assert(names@.take(i as int)[t] == names@[t]);
                    assert(names@.take(i + 1)[t] == names@[t]);
                } else {
                    assert(names@.take(i + 1)[t] == names@[t]);
                }
            }
            assert(name_views(r@) =~= name_views(names@.take(i + 1)));
        }
        i = i + 1;
    }
    proof {
        assert(names@.take(names@.len() as int) =~= names@);
        assert(name_views(r@) =~= name_views(names@));
    }
    r
}

/// Copies a resource; the copy carries the same fields, localized names
/// compared by their characters.
fn clone_resource(resource: &ServerResource) -> (r: ServerResource)
    ensures
        resource_like(r, *resource),
{
    let info = match &resource.info {
        ResourceInfo::SwfLibrary => ResourceInfo::SwfLibrary,
        ResourceInfo::A3D => ResourceInfo::A3D,
        ResourceInfo::MovieClip => ResourceInfo::MovieClip,
        ResourceInfo::Sound => ResourceInfo::Sound,
        ResourceInfo::Model3DS => ResourceInfo::Model3DS,
        ResourceInfo::GameMap => ResourceInfo::GameMap,
        ResourceInfo::PropLib => ResourceInfo::PropLib,
        ResourceInfo::Image { alpha } => ResourceInfo::Image { alpha: *alpha },
        ResourceInfo::MultiframeImage { fps, height, width, frames } => {
            ResourceInfo::MultiframeImage {
                fps: *fps,
                height: *height,
                width: *width,
                frames: *frames,
            }
        },
        ResourceInfo::LocalizedImage { file_names, alpha } => {
            ResourceInfo::LocalizedImage { file_names: clone_names(file_names), alpha: *alpha }
        },
        ResourceInfo::Tanks3DS => ResourceInfo::Tanks3DS,
    };
    ServerResource { id: resource.id, version: resource.version, lazy: resource.lazy, info }
}

/// One resource the server can ask a client to load.
#[derive(Debug, Clone, PartialEq)]
pub struct ServerResource {
    pub id: u64,
    pub version: u64,
    pub lazy: bool,
    pub info: ResourceInfo,
}

impl ServerResource {
    /// Reads a registry description: the 64-bit id and version are joined
    /// from their halves, and the type tag picks the kind and checks its
    /// extras. An unknown tag, or a kind whose extras are missing, is
    /// rejected with `None`.
    pub fn from_json_resource(resource: &Resource) -> (r: Option<ServerResource>)
        ensures
            match r {
                Some(sr) => {
                    &&& sr.id == (resource.idhigh << 32) | (resource.idlow as u64)
                    &&& sr.version == (resource.versionhigh << 32) | (resource.versionlow as u64)
                    &&& sr.lazy == resource.lazy
                    &&& info_tag(sr.info) == resource.resource_type
                    &&& (sr.info matches ResourceInfo::Image { alpha } ==> resource.alpha == Some(
                        alpha,
                    ))
                    &&& (sr.info matches ResourceInfo::MultiframeImage {
                        fps,
                        height,
                        width,
                        frames,
                    } ==> resource.fps == Some(fps) && resource.height == Some(height)
                        && resource.weight == Some(width) && resource.num_frames == Some(frames))
                    &&& (sr.info matches ResourceInfo::LocalizedImage { file_names, alpha } ==> {
                        &&& resource.alpha == Some(alpha)
                        &&& resource.file_names matches Some(fs) && name_views(file_names@)
                            == name_views(fs@)
                    })
                },
                None => {
                    ||| !(resource.resource_type == 1 || resource.resource_type == 2
                        || resource.resource_type == 3 || resource.resource_type == 4
                        || resource.resource_type == 7 || resource.resource_type == 8
                        || resource.resource_type == 9 || resource.resource_type == 10
                        || resource.resource_type == 11 || resource.resource_type == 13
                        || resource.resource_type == 17)
                    ||| resource.resource_type == 10 && resource.alpha is None
                    ||| resource.resource_type == 11 && (resource.fps is None
                        || resource.height is None || resource.weight is None
                        || resource.num_frames is None)
                    ||| resource.resource_type == 13 && (resource.file_names is None
                        || resource.alpha is None)
                },
            },
    {
        let info = if resource.resource_type == 1 {
            ResourceInfo::SwfLibrary
        } else if resource.resource_type == 2 {
            ResourceInfo::A3D
        } else if resource.resource_type == 3 {
            ResourceInfo::MovieClip
        } else if resource.resource_type == 4 {
            ResourceInfo::Sound
        } else if resource.resource_type == 7 {
            ResourceInfo::GameMap
        } else if resource.resource_type == 8 {
            ResourceInfo::PropLib
        } else if resource.resource_type == 9 {
            ResourceInfo::Model3DS
        } else if resource.resource_type == 10 {
            match resource.alpha {
                Some(alpha) => ResourceInfo::Image { alpha },
                None => {
                    return None;
                },
            }
        } else if resource.resource_type == 11 {
            match (resource.fps, resource.height, resource.weight, resource.num_frames) {
                (Some(fps), Some(height), Some(width), Some(frames)) => {
                    ResourceInfo::MultiframeImage { fps, height, width, frames }
                },
                _ => {
                    return None;
                },
            }
        } else if resource.resource_type == 13 {
            match (&resource.file_names, resource.alpha) {
                (Some(file_names), Some(alpha)) => {
                    ResourceInfo::LocalizedImage { file_names: clone_names(file_names), alpha }
                },
                _ => {
                    return None;
                },
            }
        } else if resource.resource_type == 17 {
            ResourceInfo::Tanks3DS
        } else {
            return None;
        };
        Some(
            ServerResource {
                id: (resource.idhigh << 32) | (resource.idlow as u64),
                version: (resource.versionhigh << 32) | (resource.versionlow as u64),
                lazy: resource.lazy,
                info,
            },
        )
    }

    /// Writes this resource back as a registry description: split ids, the
    /// kind's tag, and the extras of the kind. Reading the result back gives
    /// this resource again.
    pub fn as_json_resource(&self) -> (r: Resource)
        ensures
            r.idhigh == self.id >> 32,
            r.idlow == self.id as u32,
            r.versionhigh == self.version >> 32,
            r.versionlow == self.version as u32,
            r.lazy == self.lazy,
            r.resource_type == info_tag(self.info),
            (self.info matches ResourceInfo::Image { alpha } ==> r.alpha == Some(alpha)),
            (self.info matches ResourceInfo::MultiframeImage { fps, height, width, frames } ==> {
                &&& r.fps == Some(fps)
                &&& r.height == Some(height)
                &&& r.weight == Some(width)
                &&& r.num_frames == Some(frames)
            }),
            (self.info matches ResourceInfo::LocalizedImage { file_names, alpha } ==> {
                &&& r.alpha == Some(alpha)
                &&& r.file_names matches Some(fs) && name_views(fs@) == name_views(file_names@)
            }),
            !(self.info is Image) && !(self.info is MultiframeImage) && !(self.info
                is LocalizedImage) ==> r.alpha is None && r.fps is None && r.height is None
                && r.weight is None && r.num_frames is None,
            !(self.info is LocalizedImage) ==> r.file_names is None,
    {
        let mut response = Resource {
            idhigh: self.id >> 32,
            idlow: (self.id & 0xffffffff) as u32,
            versionhigh: self.version >> 32,
            versionlow: (self.version & 0xffffffff) as u32,
            resource_type: 0,
            lazy: self.lazy,
            alpha: None,
            weight: None,
            height: None,
            num_frames: None,
            fps: None,
            file_names: None,
        };
        proof {
            let v = self.id;
            assert((v & 0xffffffff) as u32 == v as u32) by (bit_vector);
            let w = self.version;
            assert((w & 0xffffffff) as u32 == w as u32) by (bit_vector);
        }
        match &self.info {
            ResourceInfo::SwfLibrary => {
                response.resource_type = 1;
            },
            ResourceInfo::A3D => {
                response.resource_type = 2;
            },
            ResourceInfo::MovieClip => {
                response.resource_type = 3;
            },
            ResourceInfo::Sound => {
                response.resource_type = 4;
            },
            ResourceInfo::GameMap => {
                response.resource_type = 7;
            },
            ResourceInfo::PropLib => {
                response.resource_type = 8;
            },
            ResourceInfo::Model3DS => {
                response.resource_type = 9;
            },
            ResourceInfo::Image { alpha } => {
                response.resource_type = 10;
                response.alpha = Some(*alpha);
            },
            ResourceInfo::MultiframeImage { fps, height, width, frames } => {
                response.resource_type = 11;
                response.fps = Some(*fps);
                response.height = Some(*height);
                response.weight = Some(*width);
                response.num_frames = Some(*frames);
            },
            ResourceInfo::LocalizedImage { file_names, alpha } => {
                response.resource_type = 13;
                response.alpha = Some(*alpha);
                response.file_names = Some(clone_names(file_names));
            },
            ResourceInfo::Tanks3DS => {
                response.resource_type = 17;
            },
        }
        response
    }
}

/// Writing a resource out and reading it back gives the same resource: the
/// registry file format loses nothing.
pub proof fn lemma_resource_roundtrip(sr: ServerResource, written: Resource, read: ServerResource)
    requires
        written.idhigh == sr.id >> 32,
        written.idlow == sr.id as u32,
        written.versionhigh == sr.version >> 32,
        written.versionlow == sr.version as u32,
        written.lazy == sr.lazy,
        written.resource_type == info_tag(sr.info),
        (sr.info matches ResourceInfo::Image { alpha } ==> written.alpha == Some(alpha)),
        (sr.info matches ResourceInfo::MultiframeImage { fps, height, width, frames } ==> {
            &&& written.fps == Some(fps)
            &&& written.height == Some(height)
            &&& written.weight == Some(width)
            &&& written.num_frames == Some(frames)
        }),
        (sr.info matches ResourceInfo::LocalizedImage { file_names, alpha } ==> {
            &&& written.alpha == Some(alpha)
            &&& written.file_names matches Some(fs) && name_views(fs@) == name_views(file_names@)
        }),
        read.id == (written.idhigh << 32) | (written.idlow as u64),
        read.version == (written.versionhigh << 32) | (written.versionlow as u64),
        read.lazy == written.lazy,
        info_tag(read.info) == written.resource_type,
        (read.info matches ResourceInfo::Image { alpha } ==> written.alpha == Some(alpha)),
        (read.info matches ResourceInfo::MultiframeImage { fps, height, width, frames } ==> {
            &&& written.fps == Some(fps)
            &&& written.height == Some(height)
            &&& written.weight == Some(width)
            &&& written.num_frames == Some(frames)
        }),
        (read.info matches ResourceInfo::LocalizedImage { file_names, alpha } ==> {
            &&& written.alpha == Some(alpha)
            &&& written.file_names matches Some(fs) && name_views(fs@) == name_views(file_names@)
        }),
    ensures
        read.id == sr.id,
        read.version == sr.version,
        read.lazy == sr.lazy,
        info_like(read.info, sr.info),
{
    let v = sr.id;
    assert(((v >> 32) << 32) | ((v as u32) as u64) == v) by (bit_vector);
    let w = sr.version;
    assert(((w >> 32) << 32) | ((w as u32) as u64) == w) by (bit_vector);
}

/// The resource registered under an id: the last registration wins.
pub open spec fn find_resource(rs: Seq<(u64, ServerResource)>, id: u64) -> Option<ServerResource>
    decreases rs.len(),
{
    if rs.len() == 0 {
        None
    } else if rs.last().0 == id {
        Some(rs.last().1)
    } else {
        find_resource(rs.drop_last(), id)
    }
}

/// The resources found for a list of ids, in list order, skipping ids the
/// registry does not know.
pub open spec fn collect_resources(rs: Seq<(u64, ServerResource)>, ids: Seq<u64>) -> Seq<
    ServerResource,
>
    decreases ids.len(),
{
    if ids.len() == 0 {
        Seq::<ServerResource>::empty()
    } else {
        let rest = collect_resources(rs, ids.drop_last());
        match find_resource(rs, ids.last()) {
            Some(resource) => rest.push(resource),
            None => rest,
        }
    }
}

/// The registry: every known resource by id, and the list each stage loads.
pub struct ServerResources {
    resource_stage: Vec<(ResourceStage, Vec<u64>)>,
    resources: Vec<(u64, ServerResource)>,
}

/// The ids listed for a stage: the last registration wins.
pub open spec fn stage_ids(s: Seq<(ResourceStage, Seq<u64>)>, stage: ResourceStage) -> Seq<u64>
    decreases s.len(),
{
    if s.len() == 0 {
        Seq::<u64>::empty()
    } else if s.last().0 == stage {
        s.last().1
    } else {
        stage_ids(s.drop_last(), stage)
    }
}

impl ServerResources {
    /// The per-stage id lists, in registration order.
    pub closed spec fn spec_stages(&self) -> Seq<(ResourceStage, Seq<u64>)> {
        Seq::new(self.resource_stage@.len(), |i: int| (self.resource_stage@[i].0, self.resource_stage@[i].1@))
    }

    /// Every registered resource, in registration order.
    pub closed spec fn spec_resources(&self) -> Seq<(u64, ServerResource)> {
        self.resources@
    }

    /// An empty registry; stages are filled by `register_resources_for_stage`.
    pub fn new() -> (r: ServerResources)
        ensures
            r.spec_stages() == Seq::<(ResourceStage, Seq<u64>)>::empty(),
            r.spec_resources() == Seq::<(u64, ServerResource)>::empty(),
    {
        let r = ServerResources { resource_stage: Vec::new(), resources: Vec::new() };
        proof {
            assert(r.spec_stages() =~= Seq::<(ResourceStage, Seq<u64>)>::empty());
        }
        r
    }

    /// Registers the resources one stage loads: each goes into the registry
    /// under its id, and the stage lists exactly their ids in order.
    pub fn register_resources_for_stage(
        &mut self,
        stage: ResourceStage,
        mut resources: Vec<ServerResource>,
    )
        ensures
            final(self).spec_resources().len() == old(self).spec_resources().len()
                + resources@.len(),
            forall|i: int|
                0 <= i < old(self).spec_resources().len() ==> final(self).spec_resources()[i]
                    == old(self).spec_resources()[i],
            forall|i: int|
                0 <= i < resources@.len() ==> final(self).spec_resources()[old(
                    self,
                ).spec_resources().len() + i] == ((#[trigger] resources@[i]).id, resources@[i]),
            stage_ids(final(self).spec_stages(), stage) == Seq::new(
                resources@.len(),
                |i: int| resources@[i].id,
            ),
            forall|other: ResourceStage|
                other != stage ==> #[trigger] stage_ids(final(self).spec_stages(), other)
                    == stage_ids(old(self).spec_stages(), other),
    {
        let ghost old_stages = self.spec_stages();
        let ghost input = resources@;
        let mut ids: Vec<u64> = Vec::new();
        while resources.len() > 0
            invariant
                resources@.len() <= input.len(),
                resources@ =~= input.skip(input.len() - resources@.len()),
                ids@ =~= Seq::new(
                    (input.len() - resources@.len()) as nat,
                    |j: int| input[j].id,
                ),
                self.resources@.len() == old(self).resources@.len() + input.len()
                    - resources@.len(),
                forall|j: int|
                    0 <= j < old(self).resources@.len() ==> self.resources@[j] == old(
                        self,
                    ).resources@[j],
                forall|j: int|
                    0 <= j < input.len() - resources@.len() ==> self.resources@[old(
                        self,
                    ).resources@.len() + j] == ((#[trigger] input[j]).id, input[j]),
                self.resource_stage@ == old(self).resource_stage@,
            decreases resources@.len(),
        {
            let ghost k = input.len() - resources@.len();
            let resource = resources.remove(0);
            proof {
                assert(resource == input[k]);
                assert(resources@ =~= input.skip(k + 1));
            }
            let id = resource.id;
            self.resources.push((id, resource));
            ids.push(id);
            proof {
                assert(ids@ =~= Seq::new((k + 1) as nat, |j: int| input[j].id));
            }
        }
        let ghost pushed = ids@;
        self.resource_stage.push((stage, ids));
        proof {
            assert(self.spec_stages() =~= old_stages.push((stage, pushed)));
            assert(self.spec_stages().last() == (stage, pushed));
            assert(self.spec_stages().drop_last() =~= old_stages);
        }
    }

    /// The resources a stage loads: one per listed id the registry knows,
    /// in the order the stage's list names them; an unknown stage loads
    /// nothing.
    pub fn get_resources(&self, stage: ResourceStage) -> (r: Vec<ServerResource>)
        ensures
            r@.len() == collect_resources(
                self.spec_resources(),
                stage_ids(self.spec_stages(), stage),
            ).len(),
            forall|j: int|
                0 <= j < r@.len() ==> resource_like(
                    #[trigger] r@[j],
                    collect_resources(
                        self.spec_resources(),
                        stage_ids(self.spec_stages(), stage),
                    )[j],
                ),
    {
        let mut ids: Option<&Vec<u64>> = None;
        let mut i: usize = 0;
        proof {
            assert(self.spec_stages().take(0) =~= Seq::<(ResourceStage, Seq<u64>)>::empty());
        }
        while i < self.resource_stage.len()
            invariant
                i <= self.resource_stage@.len(),
                match ids {
                    Some(v) => v@ == stage_ids(self.spec_stages().take(i as int), stage),
                    None => stage_ids(self.spec_stages().take(i as int), stage) == Seq::<
                        u64,
                    >::empty(),
                },
            decreases self.resource_stage@.len() - i,
        {
            proof {
                assert(self.spec_stages().take(i + 1).drop_last() =~= self.spec_stages().take(
                    i as int,
                ));
                assert(self.spec_stages().take(i + 1).last() == self.spec_stages()[i as int]);
            }
            if self.resource_stage[i].0 == stage {
                ids = Some(&self.resource_stage[i].1);
            }
            i = i + 1;
        }
        proof {
            assert(self.spec_stages().take(self.spec_stages().len() as int)
                =~= self.spec_stages());
        }
        let ghost wanted = stage_ids(self.spec_stages(), stage);
        let mut out: Vec<ServerResource> = Vec::new();
        match ids {
            None => {
                proof {
                    assert(collect_resources(self.spec_resources(), wanted)
                        =~= Seq::<ServerResource>::empty());
                }
                out
            },
            Some(list) => {
                let mut j: usize = 0;
                proof {
                    assert(collect_resources(self.spec_resources(), wanted.take(0))
                        =~= Seq::<ServerResource>::empty());
                }
                while j < list.len()
                    invariant
                        j <= list@.len(),
                        list@ == wanted,
                        wanted == stage_ids(self.spec_stages(), stage),
                        out@.len() == collect_resources(
                            self.spec_resources(),
                            wanted.take(j as int),
                        ).len(),
                        forall|t: int|
                            0 <= t < out@.len() ==> resource_like(
                                #[trigger] out@[t],
                                collect_resources(
                                    self.spec_resources(),
                                    wanted.take(j as int),
                                )[t],
                            ),
                    decreases list@.len() - j,
                {
                    let id = list[j];
                    let mut k: usize = 0;
                    let mut found: Option<usize> = None;
                    proof {
                        assert(self.spec_resources().take(0)
                            =~= Seq::<(u64, ServerResource)>::empty());
                    }
                    while k < self.resources.len()
                        invariant
                            k <= self.resources@.len(),
                            match found {
                                Some(x) => x < self.spec_resources().len() && find_resource(
                                    self.spec_resources().take(k as int),
                                    id,
                                ) == Some(self.spec_resources()[x as int].1),
                                None => find_resource(
                                    self.spec_resources().take(k as int),
                                    id,
                                ) is None,
                            },
                        decreases self.resources@.len() - k,
                    {
                        proof {
                            assert(self.spec_resources().take(k + 1).drop_last()
                                =~= self.spec_resources().take(k as int));
                            assert(self.spec_resources().take(k + 1).last()
                                == self.spec_resources()[k as int]);
                        }
                        if self.resources[k].0 == id {
                            found = Some(k);
                        }
                        k = k + 1;
                    }
                    proof {
                        assert(self.spec_resources().take(self.spec_resources().len() as int)
                            =~= self.spec_resources());
                        assert(wanted.take(j + 1).drop_last() =~= wanted.take(j as int));
                        assert(wanted.take(j + 1).last() == wanted[j as int]);
                    }
                    match found {
                        Some(x) => {
                            let copied = clone_resource(&self.resources[x].1);
                            out.push(copied);
                        },
                        None => {},
                    }
                    j = j + 1;
                }
                proof {
                    assert(wanted.take(wanted.len() as int) =~= wanted);
                }
                out
            },
        }
    }
}

/// The decimal digits of a number, as ASCII bytes, most significant first.
pub open spec fn dec_digits(n: nat) -> Seq<u8>
    decreases n,
{
    if n < 10 {
        seq![(48 + n) as u8]
    } else {
        dec_digits(n / 10).push((48 + n % 10) as u8)
    }
}

/// The octal digits of a number, as ASCII bytes, most significant first.
pub open spec fn oct_digits(n: nat) -> Seq<u8>
    decreases n,
{
    if n < 8 {
        seq![(48 + n) as u8]
    } else {
        oct_digits(n / 8).push((48 + n % 8) as u8)
    }
}

/// A byte sequence that consists of 7-bit values only, so that it is its own
/// UTF-8 encoding.
pub open spec fn ascii_bytes(s: Seq<u8>) -> bool {
    forall|i: int| 0 <= i < s.len() ==> #[trigger] s[i] < 0x80
}

/// The bytes of a resource's download path: the four segments of its id —
/// read big-endian as 32, 16, 8 and 8 bits — in decimal, then the version in
/// octal, separated by slashes.
pub open spec fn resource_path_bytes(resource_id: u64, version: u64) -> Seq<u8> {
    dec_digits((resource_id >> 32) as nat) + seq![47u8] + dec_digits(
        ((resource_id >> 16) & 0xffff) as nat,
    ) + seq![47u8] + dec_digits(((resource_id >> 8) & 0xff) as nat) + seq![47u8] + dec_digits(
        (resource_id & 0xff) as nat,
    ) + seq![47u8] + oct_digits(version as nat)
}

/// Decimal digits are ASCII.
proof fn lemma_dec_digits_ascii(n: nat)
    ensures
        ascii_bytes(dec_digits(n)),
    decreases n,
{
    if n >= 10 {
        lemma_dec_digits_ascii(n / 10);
        assert forall|i: int| 0 <= i < dec_digits(n).len() implies #[trigger] dec_digits(n)[i]
            < 0x80 by {
            if i < dec_digits(n).len() - 1 {
                assert(dec_digits(n)[i] == dec_digits(n / 10)[i]);
            }
        }
    }
}

/// Octal digits are ASCII.
proof fn lemma_oct_digits_ascii(n: nat)
    ensures
        ascii_bytes(oct_digits(n)),
    decreases n,
{
    if n >= 8 {
        lemma_oct_digits_ascii(n / 8);
        assert forall|i: int| 0 <= i < oct_digits(n).len() implies #[trigger] oct_digits(n)[i]
            < 0x80 by {
            if i < oct_digits(n).len() - 1 {
                assert(oct_digits(n)[i] == oct_digits(n / 8)[i]);
            }
        }
    }
}

/// ASCII survives concatenation.
proof fn lemma_ascii_concat(a: Seq<u8>, b: Seq<u8>)
    requires
        ascii_bytes(a),
        ascii_bytes(b),
    ensures
        ascii_bytes(a + b),
{
    assert forall|i: int| 0 <= i < (a + b).len() implies #[trigger] (a + b)[i] < 0x80 by {
        if i < a.len() {
            assert((a + b)[i] == a[i]);
        } else {
            assert((a + b)[i] == b[i - a.len()]);
        }
    }
}

/// An all-ASCII byte sequence is valid UTF-8.
proof fn lemma_ascii_valid_utf8(s: Seq<u8>)
    requires
        ascii_bytes(s),
    ensures
        vstd::utf8::valid_utf8(s),
{
    assert(s.subrange(0, 0) =~= Seq::<u8>::empty());
    assert(vstd::utf8::partial_valid_utf8(s, 0));
    assert forall|i: int|
        0 <= 0 <= i < s.len() <= s.len() implies #[trigger] vstd::utf8::is_leading_byte_width_1(
        s[i],
    ) by {
        assert(s[i] < 0x80);
    }
    vstd::utf8::partial_valid_utf8_extend_ascii_block(s, 0, s.len() as int);
    assert(s.subrange(0, s.len() as int) =~= s);
}

/// Appends the decimal digits of a number.
fn push_decimal(n: u64, out: &mut Vec<u8>)
    ensures
        final(out)@ == old(out)@ + dec_digits(n as nat),
    decreases n,
{
    if n < 10 {
        out.push(48 + n as u8);
        proof {
            assert(out@ =~= old(out)@ + dec_digits(n as nat));
        }
    } else {
        push_decimal(n / 10, out);
        out.push(48 + (n % 10) as u8);
        proof {
            assert(out@ =~= old(out)@ + dec_digits(n as nat));
        }
    }
}

/// Appends the octal digits of a number.
fn push_octal(n: u64, out: &mut Vec<u8>)
    ensures
        final(out)@ == old(out)@ + oct_digits(n as nat),
    decreases n,
{
    if n < 8 {
        out.push(48 + n as u8);
        proof {
            assert(out@ =~= old(out)@ + oct_digits(n as nat));
        }
    } else {
        push_octal(n / 8, out);
        out.push(48 + (n % 8) as u8);
        proof {
            assert(out@ =~= old(out)@ + oct_digits(n as nat));
        }
    }
}

/// The download path of a resource: the id's four big-endian segments in
/// decimal and the version in octal, separated by slashes — exactly the
/// characters of `resource_path_bytes`.
pub fn build_resource_path(resource_id: u64, version: u64) -> (r: String)
    ensures
        r@ == vstd::utf8::decode_utf8(resource_path_bytes(resource_id, version)),
{
    let mut bytes: Vec<u8> = Vec::new();
    push_decimal(resource_id >> 32, &mut bytes);
    bytes.push(47);
    push_decimal((resource_id >> 16) & 0xffff, &mut bytes);
    bytes.push(47);
    push_decimal((resource_id >> 8) & 0xff, &mut bytes);
    bytes.push(47);
    push_decimal(resource_id & 0xff, &mut bytes);
    bytes.push(47);
    push_octal(version, &mut bytes);
    proof {
        assert(bytes@ =~= resource_path_bytes(resource_id, version));
        lemma_dec_digits_ascii((resource_id >> 32) as nat);
        lemma_dec_digits_ascii(((resource_id >> 16) & 0xffff) as nat);
        lemma_dec_digits_ascii(((resource_id >> 8) & 0xff) as nat);
        lemma_dec_digits_ascii((resource_id & 0xff) as nat);
        lemma_oct_digits_ascii(version as nat);
        assert(ascii_bytes(seq![47u8]));
        lemma_ascii_concat(dec_digits((resource_id >> 32) as nat), seq![47u8]);
        lemma_ascii_concat(
            dec_digits((resource_id >> 32) as nat) + seq![47u8],
            dec_digits(((resource_id >> 16) & 0xffff) as nat),
        );
        lemma_ascii_concat(
            dec_digits((resource_id >> 32) as nat) + seq![47u8] + dec_digits(
                ((resource_id >> 16) & 0xffff) as nat,
            ),
            seq![47u8],
        );
        lemma_ascii_concat(
            dec_digits((resource_id >> 32) as nat) + seq![47u8] + dec_digits(
                ((resource_id >> 16) & 0xffff) as nat,
            ) + seq![47u8],
            dec_digits(((resource_id >> 8) & 0xff) as nat),
        );
        lemma_ascii_concat(
            dec_digits((resource_id >> 32) as nat) + seq![47u8] + dec_digits(
                ((resource_id >> 16) & 0xffff) as nat,
            ) + seq![47u8] + dec_digits(((resource_id >> 8) & 0xff) as nat),
            seq![47u8],
        );
        lemma_ascii_concat(
            dec_digits((resource_id >> 32) as nat) + seq![47u8] + dec_digits(
                ((resource_id >> 16) & 0xffff) as nat,
            ) + seq![47u8] + dec_digits(((resource_id >> 8) & 0xff) as nat) + seq![47u8],
            dec_digits((resource_id & 0xff) as nat),
        );
        lemma_ascii_concat(
            dec_digits((resource_id >> 32) as nat) + seq![47u8] + dec_digits(
                ((resource_id >> 16) & 0xffff) as nat,
            ) + seq![47u8] + dec_digits(((resource_id >> 8) & 0xff) as nat) + seq![47u8]
                + dec_digits((resource_id & 0xff) as nat),
            seq![47u8],
        );
        lemma_ascii_concat(
            dec_digits((resource_id >> 32) as nat) + seq![47u8] + dec_digits(
                ((resource_id >> 16) & 0xffff) as nat,
            ) + seq![47u8] + dec_digits(((resource_id >> 8) & 0xff) as nat) + seq![47u8]
                + dec_digits((resource_id & 0xff) as nat) + seq![47u8],
            oct_digits(version as nat),
        );
        lemma_ascii_valid_utf8(resource_path_bytes(resource_id, version));
    }
    match crate::codec::string_from_utf8(bytes) {
        Some(path) => path,
        None => {
            proof {
                assert(false);
            }
            String::new()
        },
    }
}

} // verus!
