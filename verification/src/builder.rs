use vstd::prelude::*;

use vstd::string::{StringExecFns, StrSliceExecFns};

use crate::strutil::{has_prefix, is_prefix, name_views};

verus! {

/// A build-time failure of the orchestration pipeline. Every failure is
/// fatal: the build aborts and no partial output is trusted.
#[derive(Debug)]
pub enum BuildError {
    /// No explicit output directory was set and the build system
    /// provided no default location.
    MissingOutputLocation,
    /// The schema source at this position is under none of the include
    /// directories, so no include-relative path exists for it. This is a
    /// configuration error, never silently tolerated.
    SourceOutsideIncludes { index: usize },
    /// The compiled descriptor blob did not parse; the payload carries
    /// the decoder's message.
    DescriptorUnreadable { message: String },
    /// The mapped schema source at this position is not among the files
    /// the compiled descriptor set declares, so no stubs can be
    /// generated for it.
    SourceNotInDescriptor { index: usize },
}

/// The include-relative remainder of `path` under the include directory
/// `dir`, if `path` lies under it. A directory may be given with or
/// without its trailing separator.
pub open spec fn strip_one(dir: Seq<char>, path: Seq<char>) -> Option<Seq<char>> {
    if dir.len() > 0 && dir.last() == '/' {
        if is_prefix(dir, path) && path.len() > dir.len() {
            Some(path.skip(dir.len() as int))
        } else {
            None
        }
    } else {
        if is_prefix(dir, path) && path.len() > dir.len() && path[dir.len() as int] == '/' {
            Some(path.skip(dir.len() as int + 1))
        } else {
            None
        }
    }
}

/// The include-relative path under the first include directory that
/// contains `path`, if any does.
pub open spec fn first_strip(dirs: Seq<Seq<char>>, path: Seq<char>) -> Option<Seq<char>>
    decreases dirs.len(),
{
    if dirs.len() == 0 {
        None
    } else if strip_one(dirs[0], path) is Some {
        strip_one(dirs[0], path)
    } else {
        first_strip(dirs.drop_first(), path)
    }
}

/// When the directories before `i` miss and directory `i` hits, the
/// first hit is at `i`.
proof fn lemma_first_strip_at(dirs: Seq<Seq<char>>, path: Seq<char>, i: int)
    requires
        0 <= i < dirs.len(),
        forall|j: int| 0 <= j < i ==> strip_one(#[trigger] dirs[j], path) is None,
        strip_one(dirs[i], path) is Some,
    ensures
        first_strip(dirs, path) == strip_one(dirs[i], path),
    decreases i,
{
    if i == 0 {
    } else {
        assert(forall|j: int| 0 <= j < i - 1 ==> dirs.drop_first()[j] == dirs[j + 1]);
        assert(dirs.drop_first()[i - 1] == dirs[i]);
        lemma_first_strip_at(dirs.drop_first(), path, i - 1);
    }
}

/// When every directory misses, there is no first hit.
proof fn lemma_first_strip_none(dirs: Seq<Seq<char>>, path: Seq<char>)
    requires
        forall|j: int| 0 <= j < dirs.len() ==> strip_one(#[trigger] dirs[j], path) is None,
    ensures
        first_strip(dirs, path) is None,
    decreases dirs.len(),
{
    if dirs.len() > 0 {
        assert(forall|j: int|
            0 <= j < dirs.len() - 1 ==> dirs.drop_first()[j] == dirs[j + 1]);
        lemma_first_strip_none(dirs.drop_first(), path);
    }
}

/// Decide `strip_one`, yielding the include-relative remainder.
fn strip_one_exec(dir: &str, path: &str) -> (r: Option<String>)
    ensures
        r is Some <==> strip_one(dir@, path@) is Some,
        r is Some ==> r->0@ == strip_one(dir@, path@)->0,
{
    let dn = dir.unicode_len();
    let pn = path.unicode_len();
    if dn > 0 && dir.get_char(dn - 1) == '/' {
        if has_prefix(path, dir) && pn > dn {
            Some(path.substring_char(dn, pn).to_owned())
        } else {
            None
        }
    } else {
        if has_prefix(path, dir) && pn > dn && path.get_char(dn) == '/' {
            Some(path.substring_char(dn + 1, pn).to_owned())
        } else {
            None
        }
    }
}

/// The builder of one schema-compilation run: the schema sources to
/// compile, the include directories to resolve them under, and an
/// optional explicit output directory.
#[derive(Debug)]
pub struct Builder {
    pub out_dir: Option<String>,
    pub includes: Vec<String>,
    pub sources: Vec<String>,
}

/// Every schema source lies under some include directory.
pub open spec fn sources_mappable(b: Builder) -> bool {
    forall|k: int|
        0 <= k < b.sources@.len() ==> first_strip(
            name_views(b.includes@),
            #[trigger] name_views(b.sources@)[k],
        ) is Some
}

/// The include-relative path of every schema source, in order.
pub open spec fn mapped_sources(b: Builder) -> Seq<Seq<char>> {
    Seq::new(
        b.sources@.len(),
        |k: int| first_strip(name_views(b.includes@), name_views(b.sources@)[k])->0,
    )
}

impl Builder {
    /// A builder with nothing set.
    pub fn new() -> (r: Builder)
        ensures
            r.out_dir is None,
            r.includes@ =~= Seq::<String>::empty(),
            r.sources@ =~= Seq::<String>::empty(),
    {
        Builder { out_dir: None, includes: Vec::new(), sources: Vec::new() }
    }

    /// Set the explicit output directory.
    pub fn out_dir(&mut self, dir: &str) -> (r: &mut Builder)
        ensures
            (*r).out_dir is Some && (*r).out_dir->0@ == dir@,
            (*r).includes == old(self).includes,
            (*r).sources == old(self).sources,
            *final(self) == *final(r),
    {
        self.out_dir = Some(dir.to_owned());
        self
    }

    /// Add one include search directory.
    pub fn include_dir(&mut self, dir: &str) -> (r: &mut Builder)
        ensures
            name_views((*r).includes@) == name_views(old(self).includes@).push(dir@),
            (*r).out_dir == old(self).out_dir,
            (*r).sources == old(self).sources,
            *final(self) == *final(r),
    {
        let d = dir.to_owned();
        proof {
            crate::strutil::lemma_name_views_push(self.includes@, d);
        }
        self.includes.push(d);
        self
    }

    /// Add one schema source file to compile.
    pub fn compile_proto(&mut self, proto: &str) -> (r: &mut Builder)
        ensures
            name_views((*r).sources@) == name_views(old(self).sources@).push(proto@),
            (*r).out_dir == old(self).out_dir,
            (*r).includes == old(self).includes,
            *final(self) == *final(r),
    {
        let p = proto.to_owned();
        proof {
            crate::strutil::lemma_name_views_push(self.sources@, p);
        }
        self.sources.push(p);
        self
    }

    /// Resolve the output directory: the explicit override when one was
    /// set, else a `protos` directory under the build-system-provided
    /// default root; with neither, the configuration is incomplete.
    pub fn proto_dir(&self, default_root: Option<&str>) -> (r: Result<String, BuildError>)
        ensures
            self.out_dir is Some ==> r is Ok && r->Ok_0@ == self.out_dir->0@,
            self.out_dir is None && default_root is Some ==> r is Ok && r->Ok_0@ == default_root->0@
                + "/protos"@,
            self.out_dir is None && default_root is None ==> r is Err && r->Err_0
                == (BuildError::MissingOutputLocation),
    {
        match &self.out_dir {
            Some(d) => Ok(d.clone()),
            None => match default_root {
                Some(root) => {
                    let mut s = root.to_owned();
                    s.append("/protos");
                    Ok(s)
                },
                None => Err(BuildError::MissingOutputLocation),
            },
        }
    }

    /// Map every schema source to its include-relative path, under the
    /// first include directory that contains it. The mapping succeeds
    /// exactly when every source lies under some include directory;
    /// otherwise it reports the position of the first unrooted source.
    pub fn relative_sources(&self) -> (r: Result<Vec<String>, BuildError>)
        ensures
            r is Ok <==> sources_mappable(*self),
            r is Ok ==> name_views(r->Ok_0@) == mapped_sources(*self),
            r is Err ==> match r->Err_0 {
                BuildError::SourceOutsideIncludes { index } => {
                    &&& 0 <= index < self.sources@.len()
                    &&& first_strip(
                        name_views(self.includes@),
                        name_views(self.sources@)[index as int],
                    ) is None
                    &&& forall|k: int|
                        0 <= k < index ==> first_strip(
                            name_views(self.includes@),
                            #[trigger] name_views(self.sources@)[k],
                        ) is Some
                },
                _ => false,
            },
    {
        let ghost dirs = name_views(self.includes@);
        let mut out: Vec<String> = Vec::new();
        let n = self.sources.len();
        let mut k: usize = 0;
        while k < n
            invariant
                n == self.sources@.len(),
                dirs == name_views(self.includes@),
                k <= n,
                out@.len() == k,
                forall|q: int|
                    0 <= q < k ==> first_strip(dirs, #[trigger] name_views(self.sources@)[q])
                        is Some,
                forall|q: int|
                    0 <= q < k ==> #[trigger] name_views(out@)[q] == first_strip(
                        dirs,
                        name_views(self.sources@)[q],
                    )->0,
            decreases n - k,
        {
            let source = &self.sources[k];
            assert(source@ == name_views(self.sources@)[k as int]);
            let m = self.includes.len();
            let mut i: usize = 0;
            let mut found: Option<String> = None;
            while i < m
                invariant
                    m == self.includes@.len(),
                    dirs == name_views(self.includes@),
                    i <= m,
                    found is None ==> forall|j: int|
                        0 <= j < i ==> strip_one(#[trigger] dirs[j], source@) is None,
                    found is Some ==> first_strip(dirs, source@) is Some && found->0@ == first_strip(
                        dirs,
                        source@,
                    )->0,
                decreases m - i,
            {
                if found.is_none() {
                    let dir = &self.includes[i];
                    assert(dir@ == dirs[i as int]);
                    match strip_one_exec(dir.as_str(), source.as_str()) {
                        Some(rel) => {
                            proof {
                                lemma_first_strip_at(dirs, source@, i as int);
                            }
                            found = Some(rel);
                        },
                        None => {},
                    }
                }
                i += 1;
            }
            match found {
                Some(rel) => {
                    proof {
                        crate::strutil::lemma_name_views_push(out@, rel);
                    }
                    out.push(rel);
                },
                None => {
                    proof {
                        lemma_first_strip_none(dirs, source@);
                    }
                    return Err(BuildError::SourceOutsideIncludes { index: k });
                },
            }
            k += 1;
        }
        proof {
            assert(name_views(out@) =~= mapped_sources(*self));
        }
        Ok(out)
    }
}

/// The fixed-name descriptor artifact inside the output directory.
pub fn descriptor_path(dir: &str) -> (r: String)
    ensures
        r@ == dir@ + "/mod.desc"@,
{
    let mut s = dir.to_owned();
    s.append("/mod.desc");
    s
}

#[verifier::external_type_specification]
#[verifier::external_body]
pub struct ExFileDescriptorSet(protobuf::descriptor::FileDescriptorSet);

/// The schema file names a compiled descriptor set declares, in order.
pub uninterp spec fn descriptor_file_names(d: protobuf::descriptor::FileDescriptorSet) -> Seq<
    Seq<char>,
>;

/// Whether a byte sequence is a well-formed serialized descriptor set:
/// decoding is a function of the bytes alone.
pub uninterp spec fn descriptor_parses(bytes: Seq<u8>) -> bool;

/// Whether RPC stub generation returns normally on this descriptor set:
/// every declared service carries at least one method, and every
/// method's request and response types resolve within the set. The
/// generator aborts on any other descriptor set; one the schema
/// compiler produced satisfies this.
pub uninterp spec fn stub_gen_safe(d: protobuf::descriptor::FileDescriptorSet) -> bool;

/// The stub units the RPC generator yields for a descriptor set and a
/// file list: name and content of each, in order, a function of the two
/// arguments alone.
pub uninterp spec fn stub_units(
    d: protobuf::descriptor::FileDescriptorSet,
    files: Seq<Seq<char>>,
) -> Seq<(Seq<char>, Seq<u8>)>;

/// The mathematical values of a list of named content blobs.
pub open spec fn pair_views(s: Seq<(String, Vec<u8>)>) -> Seq<(Seq<char>, Seq<u8>)> {
    s.map_values(|p: (String, Vec<u8>)| (p.0@, p.1@))
}

/// Relies on protobuf's `Message::parse_from_bytes`: decodes a
/// serialized descriptor set from its wire form, succeeding exactly on
/// well-formed input, or reports a decoding error, whose message the
/// result carries.
#[verifier::external_body]
fn parse_descriptor_set(bytes: &[u8]) -> (r: Result<protobuf::descriptor::FileDescriptorSet, String>)
    ensures
        r is Ok <==> descriptor_parses(bytes@),
{
    match <protobuf::descriptor::FileDescriptorSet as protobuf::Message>::parse_from_bytes(bytes) {
        Ok(d) => Ok(d),
        Err(e) => Err(format!("{:?}", e)),
    }
}

/// Parse a compiled descriptor set from its serialized wire form.
/// Parsing succeeds exactly on well-formed input; a malformed blob is
/// reported as unreadable, with the decoder's message.
pub fn parse_descriptor(bytes: &[u8]) -> (r: Result<
    protobuf::descriptor::FileDescriptorSet,
    BuildError,
>)
    ensures
        r is Ok <==> descriptor_parses(bytes@),
        r is Err ==> r->Err_0 is DescriptorUnreadable,
{
    match parse_descriptor_set(bytes) {
        Ok(d) => Ok(d),
        Err(message) => Err(BuildError::DescriptorUnreadable { message }),
    }
}

/// Relies on protobuf's `FileDescriptorSet::get_file` and
/// `FileDescriptorProto::get_name`: hands out the name of every schema
/// file the descriptor set declares, in order.
#[verifier::external_body]
fn file_names(d: &protobuf::descriptor::FileDescriptorSet) -> (r: Vec<String>)
    ensures
        name_views(r@) == descriptor_file_names(*d),
{
    d.get_file().iter().map(|f| f.get_name().to_owned()).collect()
}

/// Relies on grpcio-compiler's `codegen::gen`: generates the RPC stub
/// units for the given schema files — a function of the descriptor set
/// and the file list alone, here named `stub_units` — yielding at most
/// one named content blob per file (files declaring no service yield
/// none). `gen` looks every given file up among the descriptor set's
/// declared files, so every given file must be declared there; and it
/// aborts on a service without methods or a method whose types do not
/// resolve, so the descriptor set must be one it returns normally on
/// (`stub_gen_safe`).
#[verifier::external_body]
fn generate_stub_units(desc: &protobuf::descriptor::FileDescriptorSet, files: &Vec<String>) -> (r:
    Vec<(String, Vec<u8>)>)
    requires
        stub_gen_safe(*desc),
        forall|k: int|
            0 <= k < files@.len() ==> descriptor_file_names(*desc).contains(
                #[trigger] files@[k]@,
            ),
    ensures
        stub_gen_safe(*desc) ==> pair_views(r@) == stub_units(*desc, name_views(files@)),
        r@.len() <= files@.len(),
{
    let results = grpcio_compiler::codegen::gen(desc.get_file(), files.as_slice());
    results.into_iter().map(|g| (g.name, g.content)).collect()
}

/// Every include-relative schema source is among the files the
/// descriptor set declares.
pub open spec fn sources_declared(b: Builder, d: protobuf::descriptor::FileDescriptorSet) -> bool {
    forall|k: int|
        0 <= k < mapped_sources(b).len() ==> descriptor_file_names(d).contains(
            #[trigger] mapped_sources(b)[k],
        )
}

impl Builder {
    /// Generate the RPC stub units of this build from a parsed
    /// descriptor set: map every schema source to its include-relative
    /// path, check that the descriptor set declares each of them, and
    /// hand them to the stub generator, whose units the result carries
    /// verbatim, in order.
    ///
    /// The descriptor set must be one the stub generator returns
    /// normally on (`stub_gen_safe`), as any set the schema compiler
    /// produced is. Every configuration fault is reported exactly: the
    /// first source under no include directory, or the first mapped
    /// source the descriptor set does not declare.
    pub fn build_grpcio(&self, desc: &protobuf::descriptor::FileDescriptorSet) -> (r: Result<
        Vec<(String, Vec<u8>)>,
        BuildError,
    >)
        requires
            stub_gen_safe(*desc),
        ensures
            r is Ok <==> (sources_mappable(*self) && sources_declared(*self, *desc)),
            r is Ok ==> pair_views(r->Ok_0@) == stub_units(*desc, mapped_sources(*self)),
            r is Ok ==> r->Ok_0@.len() <= self.sources@.len(),
            r is Err ==> match r->Err_0 {
                BuildError::SourceOutsideIncludes { index } => {
                    &&& 0 <= index < self.sources@.len()
                    &&& first_strip(
                        name_views(self.includes@),
                        name_views(self.sources@)[index as int],
                    ) is None
                    &&& forall|k: int|
                        0 <= k < index ==> first_strip(
                            name_views(self.includes@),
                            #[trigger] name_views(self.sources@)[k],
                        ) is Some
                },
                BuildError::SourceNotInDescriptor { index } => {
                    &&& sources_mappable(*self)
                    &&& 0 <= index < self.sources@.len()
                    &&& !descriptor_file_names(*desc).contains(
                        mapped_sources(*self)[index as int],
                    )
                    &&& forall|k: int|
                        0 <= k < index ==> descriptor_file_names(*desc).contains(
                            #[trigger] mapped_sources(*self)[k],
                        )
                },
                BuildError::DescriptorUnreadable { .. } => false,
                BuildError::MissingOutputLocation => false,
            },
    {
        let files = match self.relative_sources() {
            Ok(f) => f,
            Err(e) => {
                return Err(e);
            },
        };
        proof {
            assert(name_views(files@) == mapped_sources(*self));
            assert(name_views(files@).len() == files@.len());
            assert(mapped_sources(*self).len() == self.sources@.len());
        }
        let declared = file_names(desc);
        let n = files.len();
        let mut k: usize = 0;
        while k < n
            invariant
                n == files@.len(),
                n == self.sources@.len(),
                k <= n,
                stub_gen_safe(*desc),
                name_views(files@) == mapped_sources(*self),
                name_views(declared@) == descriptor_file_names(*desc),
                forall|q: int|
                    0 <= q < k ==> descriptor_file_names(*desc).contains(
                        #[trigger] files@[q]@,
                    ),
                sources_mappable(*self),
            decreases n - k,
        {
            let mut present = false;
            let m = declared.len();
            let mut i: usize = 0;
            while i < m
                invariant
                    m == declared@.len(),
                    name_views(declared@) == descriptor_file_names(*desc),
                    i <= m,
                    k < files@.len(),
                    present ==> descriptor_file_names(*desc).contains(files@[k as int]@),
                    !present ==> forall|j: int|
                        0 <= j < i ==> #[trigger] name_views(declared@)[j] != files@[k as int]@,
                decreases m - i,
            {
                if !present && declared[i] == files[k] {
                    proof {
                        assert(name_views(declared@)[i as int] == declared@[i as int]@);
                        assert(descriptor_file_names(*desc)[i as int] == files@[k as int]@);
                        assert(descriptor_file_names(*desc).contains(files@[k as int]@));
                    }
                    present = true;
                }
                i += 1;
            }
            if !present {
                proof {
                    let target = files@[k as int]@;
                    assert(!descriptor_file_names(*desc).contains(target)) by {
                        if descriptor_file_names(*desc).contains(target) {
                            let j = choose|j: int|
                                0 <= j < descriptor_file_names(*desc).len()
                                    && descriptor_file_names(*desc)[j] == target;
                            assert(name_views(declared@)[j] != target);
                        }
                    }
                    assert(mapped_sources(*self)[k as int] == name_views(files@)[k as int]);
                    assert(name_views(files@)[k as int] == target);
                    assert forall|q: int| 0 <= q < k implies descriptor_file_names(
                        *desc,
                    ).contains(#[trigger] mapped_sources(*self)[q]) by {
                        assert(mapped_sources(*self)[q] == name_views(files@)[q]);
                        assert(name_views(files@)[q] == files@[q]@);
                    }
                }
                return Err(BuildError::SourceNotInDescriptor { index: k });
            }
            k += 1;
        }
        proof {
            assert forall|q: int| 0 <= q < mapped_sources(*self).len()
                implies descriptor_file_names(*desc).contains(
                #[trigger] mapped_sources(*self)[q],
            ) by {
                assert(mapped_sources(*self)[q] == name_views(files@)[q]);
                assert(name_views(files@)[q] == files@[q]@);
            }
        }
        Ok(generate_stub_units(desc, &files))
    }
}

} // verus!
