//! The native methods by which the zygote starts processes, in all the forms
//! that they have had, and how they are hooked.
use vstd::prelude::*;
use crate::loader::abi::AppSpecializeArgsV5;
use crate::loader::context::{JniHookEntry, NativeMethod};
use crate::loader::specialize::StartKind;
use crate::text::{has_part, same_text, text_contains};

verus! {

/// One form of a native method: each system release, and each vendor, has its
/// own.
#[derive(Clone, Copy, Debug, PartialEq, Eq, Structural)]
pub enum Overload {
    ForkL,
    ForkO,
    ForkP,
    ForkQAlt,
    ForkR,
    ForkU,
    ForkV,
    ForkSamsungM,
    ForkSamsungN,
    ForkSamsungO,
    ForkSamsungP,
    ForkSamsungB,
    ForkGrapheneosU,
    SpecializeQ,
    SpecializeQAlt,
    SpecializeR,
    SpecializeU,
    SpecializeSamsungQ,
    SpecializeGrapheneosU,
    ServerL,
    ServerSamsungQ,
}

/// What a form of a native method starts.
pub open spec fn family(o: Overload) -> StartKind {
    match o {
        Overload::ForkL => StartKind::ForkApp,
        Overload::ForkO => StartKind::ForkApp,
        Overload::ForkP => StartKind::ForkApp,
        Overload::ForkQAlt => StartKind::ForkApp,
        Overload::ForkR => StartKind::ForkApp,
        Overload::ForkU => StartKind::ForkApp,
        Overload::ForkV => StartKind::ForkApp,
        Overload::ForkSamsungM => StartKind::ForkApp,
        Overload::ForkSamsungN => StartKind::ForkApp,
        Overload::ForkSamsungO => StartKind::ForkApp,
        Overload::ForkSamsungP => StartKind::ForkApp,
        Overload::ForkSamsungB => StartKind::ForkApp,
        Overload::ForkGrapheneosU => StartKind::ForkApp,
        Overload::SpecializeQ => StartKind::SpecializeApp,
        Overload::SpecializeQAlt => StartKind::SpecializeApp,
        Overload::SpecializeR => StartKind::SpecializeApp,
        Overload::SpecializeU => StartKind::SpecializeApp,
        Overload::SpecializeSamsungQ => StartKind::SpecializeApp,
        Overload::SpecializeGrapheneosU => StartKind::SpecializeApp,
        Overload::ServerL => StartKind::ForkServer,
        Overload::ServerSamsungQ => StartKind::ForkServer,
    }
}

/// The name of the method that starts a process in a given way.
pub open spec fn method_name(kind: StartKind) -> Seq<char> {
    match kind {
        StartKind::ForkApp => "nativeForkAndSpecialize"@,
        StartKind::SpecializeApp => "nativeSpecializeAppProcess"@,
        StartKind::ForkServer => "nativeForkSystemServer"@,
    }
}

/// The signature of a form of a native method.
pub open spec fn signature_of(o: Overload) -> Seq<char> {
    match o {
        Overload::ForkL => "(II[II[[IILjava/lang/String;Ljava/lang/String;[ILjava/lang/String;Ljava/lang/String;)I"@,
        Overload::ForkO => "(II[II[[IILjava/lang/String;Ljava/lang/String;[I[ILjava/lang/String;Ljava/lang/String;)I"@,
        Overload::ForkP => "(II[II[[IILjava/lang/String;Ljava/lang/String;[I[IZLjava/lang/String;Ljava/lang/String;)I"@,
        Overload::ForkQAlt => "(II[II[[IILjava/lang/String;Ljava/lang/String;[I[IZLjava/lang/String;Ljava/lang/String;Z)I"@,
        Overload::ForkR => "(II[II[[IILjava/lang/String;Ljava/lang/String;[I[IZLjava/lang/String;Ljava/lang/String;Z[Ljava/lang/String;[Ljava/lang/String;ZZ)I"@,
        Overload::ForkU => "(II[II[[IILjava/lang/String;Ljava/lang/String;[I[IZLjava/lang/String;Ljava/lang/String;Z[Ljava/lang/String;[Ljava/lang/String;ZZZ)I"@,
        Overload::ForkV => "(II[II[[IILjava/lang/String;Ljava/lang/String;[I[IZLjava/lang/String;Ljava/lang/String;ZZ[Ljava/lang/String;[Ljava/lang/String;ZZZ)I"@,
        Overload::ForkSamsungM => "(II[II[[IILjava/lang/String;IILjava/lang/String;[ILjava/lang/String;Ljava/lang/String;)I"@,
        Overload::ForkSamsungN => "(II[II[[IILjava/lang/String;IILjava/lang/String;[ILjava/lang/String;Ljava/lang/String;I)I"@,
        Overload::ForkSamsungO => "(II[II[[IILjava/lang/String;IILjava/lang/String;[I[ILjava/lang/String;Ljava/lang/String;)I"@,
        Overload::ForkSamsungP => "(II[II[[IILjava/lang/String;IILjava/lang/String;[I[IZLjava/lang/String;Ljava/lang/String;)I"@,
        Overload::ForkSamsungB => "(II[II[[IILjava/lang/String;Ljava/lang/String;[I[IZLjava/lang/String;Ljava/lang/String;ZZ[Ljava/lang/String;[Ljava/lang/String;ZZZ)I"@,
        Overload::ForkGrapheneosU => "(II[II[[IILjava/lang/String;Ljava/lang/String;[I[IZLjava/lang/String;Ljava/lang/String;Z[Ljava/lang/String;[Ljava/lang/String;ZZZ[J)I"@,
        Overload::SpecializeQ => "(II[II[[IILjava/lang/String;Ljava/lang/String;ZLjava/lang/String;Ljava/lang/String;)V"@,
        Overload::SpecializeQAlt => "(II[II[[IILjava/lang/String;Ljava/lang/String;ZLjava/lang/String;Ljava/lang/String;Z)V"@,
        Overload::SpecializeR => "(II[II[[IILjava/lang/String;Ljava/lang/String;ZLjava/lang/String;Ljava/lang/String;Z[Ljava/lang/String;[Ljava/lang/String;ZZ)V"@,
        Overload::SpecializeU => "(II[II[[IILjava/lang/String;Ljava/lang/String;ZLjava/lang/String;Ljava/lang/String;Z[Ljava/lang/String;[Ljava/lang/String;ZZZ)V"@,
        Overload::SpecializeSamsungQ => "(II[II[[IILjava/lang/String;IILjava/lang/String;ZLjava/lang/String;Ljava/lang/String;)V"@,
        Overload::SpecializeGrapheneosU => "(II[II[[IILjava/lang/String;Ljava/lang/String;ZLjava/lang/String;Ljava/lang/String;Z[Ljava/lang/String;[Ljava/lang/String;ZZZ[J)V"@,
        Overload::ServerL => "(II[II[[IJJ)I"@,
        Overload::ServerSamsungQ => "(II[IIII[[IJJ)I"@,
    }
}

/// All forms, in the order in which they are hooked.
pub open spec fn all_overloads() -> Seq<Overload> {
    seq![
        Overload::ForkL,
        Overload::ForkO,
        Overload::ForkP,
        Overload::ForkQAlt,
        Overload::ForkR,
        Overload::ForkU,
        Overload::ForkV,
        Overload::ForkSamsungM,
        Overload::ForkSamsungN,
        Overload::ForkSamsungO,
        Overload::ForkSamsungP,
        Overload::ForkSamsungB,
        Overload::ForkGrapheneosU,
        Overload::SpecializeQ,
        Overload::SpecializeQAlt,
        Overload::SpecializeR,
        Overload::SpecializeU,
        Overload::SpecializeSamsungQ,
        Overload::SpecializeGrapheneosU,
        Overload::ServerL,
        Overload::ServerSamsungQ,
    ]
}

/// How many of the later arguments a form has: none, the mark of a child
/// zygote, the mark of the top app, the lists of packages and the mounts of
/// their directories, the overrides of properties.
pub open spec fn level(o: Overload) -> int {
    match o {
        Overload::ForkL => 0,
        Overload::ForkO => 0,
        Overload::ForkP => 1,
        Overload::ForkQAlt => 2,
        Overload::ForkR => 3,
        Overload::ForkU => 4,
        Overload::ForkV => 4,
        Overload::ForkSamsungM => 0,
        Overload::ForkSamsungN => 0,
        Overload::ForkSamsungO => 0,
        Overload::ForkSamsungP => 1,
        Overload::ForkSamsungB => 4,
        Overload::ForkGrapheneosU => 4,
        Overload::SpecializeQ => 1,
        Overload::SpecializeQAlt => 2,
        Overload::SpecializeR => 3,
        Overload::SpecializeU => 4,
        Overload::SpecializeSamsungQ => 1,
        Overload::SpecializeGrapheneosU => 4,
        Overload::ServerL => 0,
        Overload::ServerSamsungQ => 0,
    }
}

/// A form has the list of files to leave open.
pub open spec fn has_ignored_files(o: Overload) -> bool {
    family(o) == StartKind::ForkApp && o != Overload::ForkL && o != Overload::ForkSamsungM && o
        != Overload::ForkSamsungN
}

/// The class whose methods are hooked.
pub open spec fn zygote_class() -> Seq<char> {
    "com/android/internal/os/Zygote"@
}

impl Overload {
    /// What it starts.
    pub fn kind(self) -> (k: StartKind)
        ensures
            k == family(self),
    {
        match self {
            Overload::ForkL => StartKind::ForkApp,
            Overload::ForkO => StartKind::ForkApp,
            Overload::ForkP => StartKind::ForkApp,
            Overload::ForkQAlt => StartKind::ForkApp,
            Overload::ForkR => StartKind::ForkApp,
            Overload::ForkU => StartKind::ForkApp,
            Overload::ForkV => StartKind::ForkApp,
            Overload::ForkSamsungM => StartKind::ForkApp,
            Overload::ForkSamsungN => StartKind::ForkApp,
            Overload::ForkSamsungO => StartKind::ForkApp,
            Overload::ForkSamsungP => StartKind::ForkApp,
            Overload::ForkSamsungB => StartKind::ForkApp,
            Overload::ForkGrapheneosU => StartKind::ForkApp,
            Overload::SpecializeQ => StartKind::SpecializeApp,
            Overload::SpecializeQAlt => StartKind::SpecializeApp,
            Overload::SpecializeR => StartKind::SpecializeApp,
            Overload::SpecializeU => StartKind::SpecializeApp,
            Overload::SpecializeSamsungQ => StartKind::SpecializeApp,
            Overload::SpecializeGrapheneosU => StartKind::SpecializeApp,
            Overload::ServerL => StartKind::ForkServer,
            Overload::ServerSamsungQ => StartKind::ForkServer,
        }
    }

    /// The name of the method.
    pub fn name(self) -> (s: &'static str)
        ensures
            s@ == method_name(family(self)),
    {
        match self.kind() {
            StartKind::ForkApp => "nativeForkAndSpecialize",
            StartKind::SpecializeApp => "nativeSpecializeAppProcess",
            StartKind::ForkServer => "nativeForkSystemServer",
        }
    }

    /// Its signature.
    pub fn signature(self) -> (s: &'static str)
        ensures
            s@ == signature_of(self),
    {
        match self {
            Overload::ForkL => "(II[II[[IILjava/lang/String;Ljava/lang/String;[ILjava/lang/String;Ljava/lang/String;)I",
            Overload::ForkO => "(II[II[[IILjava/lang/String;Ljava/lang/String;[I[ILjava/lang/String;Ljava/lang/String;)I",
            Overload::ForkP => "(II[II[[IILjava/lang/String;Ljava/lang/String;[I[IZLjava/lang/String;Ljava/lang/String;)I",
            Overload::ForkQAlt => "(II[II[[IILjava/lang/String;Ljava/lang/String;[I[IZLjava/lang/String;Ljava/lang/String;Z)I",
            Overload::ForkR => "(II[II[[IILjava/lang/String;Ljava/lang/String;[I[IZLjava/lang/String;Ljava/lang/String;Z[Ljava/lang/String;[Ljava/lang/String;ZZ)I",
            Overload::ForkU => "(II[II[[IILjava/lang/String;Ljava/lang/String;[I[IZLjava/lang/String;Ljava/lang/String;Z[Ljava/lang/String;[Ljava/lang/String;ZZZ)I",
            Overload::ForkV => "(II[II[[IILjava/lang/String;Ljava/lang/String;[I[IZLjava/lang/String;Ljava/lang/String;ZZ[Ljava/lang/String;[Ljava/lang/String;ZZZ)I",
            Overload::ForkSamsungM => "(II[II[[IILjava/lang/String;IILjava/lang/String;[ILjava/lang/String;Ljava/lang/String;)I",
            Overload::ForkSamsungN => "(II[II[[IILjava/lang/String;IILjava/lang/String;[ILjava/lang/String;Ljava/lang/String;I)I",
            Overload::ForkSamsungO => "(II[II[[IILjava/lang/String;IILjava/lang/String;[I[ILjava/lang/String;Ljava/lang/String;)I",
            Overload::ForkSamsungP => "(II[II[[IILjava/lang/String;IILjava/lang/String;[I[IZLjava/lang/String;Ljava/lang/String;)I",
            Overload::ForkSamsungB => "(II[II[[IILjava/lang/String;Ljava/lang/String;[I[IZLjava/lang/String;Ljava/lang/String;ZZ[Ljava/lang/String;[Ljava/lang/String;ZZZ)I",
            Overload::ForkGrapheneosU => "(II[II[[IILjava/lang/String;Ljava/lang/String;[I[IZLjava/lang/String;Ljava/lang/String;Z[Ljava/lang/String;[Ljava/lang/String;ZZZ[J)I",
            Overload::SpecializeQ => "(II[II[[IILjava/lang/String;Ljava/lang/String;ZLjava/lang/String;Ljava/lang/String;)V",
            Overload::SpecializeQAlt => "(II[II[[IILjava/lang/String;Ljava/lang/String;ZLjava/lang/String;Ljava/lang/String;Z)V",
            Overload::SpecializeR => "(II[II[[IILjava/lang/String;Ljava/lang/String;ZLjava/lang/String;Ljava/lang/String;Z[Ljava/lang/String;[Ljava/lang/String;ZZ)V",
            Overload::SpecializeU => "(II[II[[IILjava/lang/String;Ljava/lang/String;ZLjava/lang/String;Ljava/lang/String;Z[Ljava/lang/String;[Ljava/lang/String;ZZZ)V",
            Overload::SpecializeSamsungQ => "(II[II[[IILjava/lang/String;IILjava/lang/String;ZLjava/lang/String;Ljava/lang/String;)V",
            Overload::SpecializeGrapheneosU => "(II[II[[IILjava/lang/String;Ljava/lang/String;ZLjava/lang/String;Ljava/lang/String;Z[Ljava/lang/String;[Ljava/lang/String;ZZZ[J)V",
            Overload::ServerL => "(II[II[[IJJ)I",
            Overload::ServerSamsungQ => "(II[IIII[[IJJ)I",
        }
    }

    fn arguments(self) -> (n: u32)
        ensures
            n == level(self),
    {
        match self {
            Overload::ForkL => 0,
            Overload::ForkO => 0,
            Overload::ForkP => 1,
            Overload::ForkQAlt => 2,
            Overload::ForkR => 3,
            Overload::ForkU => 4,
            Overload::ForkV => 4,
            Overload::ForkSamsungM => 0,
            Overload::ForkSamsungN => 0,
            Overload::ForkSamsungO => 0,
            Overload::ForkSamsungP => 1,
            Overload::ForkSamsungB => 4,
            Overload::ForkGrapheneosU => 4,
            Overload::SpecializeQ => 1,
            Overload::SpecializeQAlt => 2,
            Overload::SpecializeR => 3,
            Overload::SpecializeU => 4,
            Overload::SpecializeSamsungQ => 1,
            Overload::SpecializeGrapheneosU => 4,
            Overload::ServerL => 0,
            Overload::ServerSamsungQ => 0,
        }
    }

    fn ignores_files(self) -> (r: bool)
        ensures
            r == has_ignored_files(self),
    {
        match self {
            Overload::ForkL => false,
            Overload::ForkSamsungM => false,
            Overload::ForkSamsungN => false,
            _ => self.kind() == StartKind::ForkApp,
        }
    }

    /// The arguments that modules see of an app's start in this form: the
    /// addresses of those that it has, zero for the others.
    pub fn app_args(self, all: AppSpecializeArgsV5) -> (args: AppSpecializeArgsV5)
        ensures
            args == (AppSpecializeArgsV5 {
                fds_to_ignore: given(has_ignored_files(self), all.fds_to_ignore),
                is_child_zygote: given(level(self) >= 1, all.is_child_zygote),
                is_top_app: given(level(self) >= 2, all.is_top_app),
                pkg_data_info_list: given(level(self) >= 3, all.pkg_data_info_list),
                whitelisted_data_info_list: given(level(self) >= 3, all.whitelisted_data_info_list),
                mount_data_dirs: given(level(self) >= 3, all.mount_data_dirs),
                mount_storage_dirs: given(level(self) >= 3, all.mount_storage_dirs),
                mount_sysprop_overrides: given(level(self) >= 4, all.mount_sysprop_overrides),
                ..all
            }),
    {
        let mut args = all;
        if !self.ignores_files() {
            args.fds_to_ignore = 0;
        }
        let n: u32 = self.arguments();
        if n < 1 {
            args.is_child_zygote = 0;
        }
        if n < 2 {
            args.is_top_app = 0;
        }
        if n < 3 {
            args.pkg_data_info_list = 0;
            args.whitelisted_data_info_list = 0;
            args.mount_data_dirs = 0;
            args.mount_storage_dirs = 0;
        }
        if n < 4 {
            args.mount_sysprop_overrides = 0;
        }
        args
    }
}

/// An address if there is one, else zero.
pub open spec fn given(there: bool, addr: usize) -> usize {
    if there {
        addr
    } else {
        0
    }
}

/// A method to hook.
pub struct MethodHook {
    /// Its class.
    pub class_name: &'static str,
    /// Its name.
    pub name: &'static str,
    /// Its signature.
    pub signature: &'static str,
    /// Its form, which stands for the function that replaces it.
    pub overload: Overload,
}

impl MethodHook {
    /// The hook is that of a form.
    pub open spec fn stands_for(self, o: Overload) -> bool {
        &&& self.class_name@ == zygote_class()
        &&& self.name@ == method_name(family(o))
        &&& self.signature@ == signature_of(o)
        &&& self.overload == o
    }
}

fn push_hook(out: &mut Vec<MethodHook>, o: Overload)
    ensures
        final(out)@.len() == old(out)@.len() + 1,
        forall|i: int| 0 <= i < old(out)@.len() ==> #[trigger] final(out)@[i] == old(out)@[i],
        final(out)@.last().stands_for(o),
{
    out.push(
        MethodHook {
            class_name: "com/android/internal/os/Zygote",
            name: o.name(),
            signature: o.signature(),
            overload: o,
        },
    );
}

fn overloads() -> (out: Vec<Overload>)
    ensures
        out@ == all_overloads(),
{
    let mut out: Vec<Overload> = Vec::new();
    out.push(Overload::ForkL);
    out.push(Overload::ForkO);
    out.push(Overload::ForkP);
    out.push(Overload::ForkQAlt);
    out.push(Overload::ForkR);
    out.push(Overload::ForkU);
    out.push(Overload::ForkV);
    out.push(Overload::ForkSamsungM);
    out.push(Overload::ForkSamsungN);
    out.push(Overload::ForkSamsungO);
    out.push(Overload::ForkSamsungP);
    out.push(Overload::ForkSamsungB);
    out.push(Overload::ForkGrapheneosU);
    out.push(Overload::SpecializeQ);
    out.push(Overload::SpecializeQAlt);
    out.push(Overload::SpecializeR);
    out.push(Overload::SpecializeU);
    out.push(Overload::SpecializeSamsungQ);
    out.push(Overload::SpecializeGrapheneosU);
    out.push(Overload::ServerL);
    out.push(Overload::ServerSamsungQ);
    assert(out@ =~= all_overloads());
    out
}

/// The methods to hook, in their order.
pub fn jni_hooks() -> (out: Vec<MethodHook>)
    ensures
        out@.len() == all_overloads().len(),
        forall|i: int|
            0 <= i < out@.len() ==> (#[trigger] out@[i]).stands_for(all_overloads()[i]),
{
    let forms = overloads();
    let mut out: Vec<MethodHook> = Vec::new();
    let mut i: usize = 0;
    while i < forms.len()
        invariant
            i <= forms@.len(),
            forms@ == all_overloads(),
            out@.len() == i,
            forall|j: int| 0 <= j < i ==> (#[trigger] out@[j]).stands_for(all_overloads()[j]),
        decreases forms@.len() - i,
    {
        push_hook(&mut out, forms[i]);
        i = i + 1;
    }
    out
}

/// Every form is hooked exactly once.
pub proof fn law_every_form_is_hooked_once(o: Overload)
    ensures
        exists|i: int| 0 <= i < all_overloads().len() && all_overloads()[i] == o,
        forall|i: int, j: int|
            0 <= i < all_overloads().len() && 0 <= j < all_overloads().len() && all_overloads()[i]
                == o && all_overloads()[j] == o ==> i == j,
{
    let all = all_overloads();
    assert(all[0] == Overload::ForkL);
    assert(all[1] == Overload::ForkO);
    assert(all[2] == Overload::ForkP);
    assert(all[3] == Overload::ForkQAlt);
    assert(all[4] == Overload::ForkR);
    assert(all[5] == Overload::ForkU);
    assert(all[6] == Overload::ForkV);
    assert(all[7] == Overload::ForkSamsungM);
    assert(all[8] == Overload::ForkSamsungN);
    assert(all[9] == Overload::ForkSamsungO);
    assert(all[10] == Overload::ForkSamsungP);
    assert(all[11] == Overload::ForkSamsungB);
    assert(all[12] == Overload::ForkGrapheneosU);
    assert(all[13] == Overload::SpecializeQ);
    assert(all[14] == Overload::SpecializeQAlt);
    assert(all[15] == Overload::SpecializeR);
    assert(all[16] == Overload::SpecializeU);
    assert(all[17] == Overload::SpecializeSamsungQ);
    assert(all[18] == Overload::SpecializeGrapheneosU);
    assert(all[19] == Overload::ServerL);
    assert(all[20] == Overload::ServerSamsungQ);
}

/// The hooks of one class.
pub struct ClassHooks {
    /// The class.
    pub class_name: &'static str,
    /// Its hooks.
    pub hooks: Vec<MethodHook>,
}

/// The hooks of one class, as plain values.
#[verifier::ext_equal]
pub struct ClassGroup {
    /// The class.
    pub class_name: Seq<char>,
    /// Its hooks.
    pub hooks: Seq<MethodHook>,
}

impl View for ClassHooks {
    type V = ClassGroup;

    open spec fn view(&self) -> ClassGroup {
        ClassGroup { class_name: self.class_name@, hooks: self.hooks@ }
    }
}

/// The first group of a class, or the number of groups.
pub open spec fn group_of(groups: Seq<ClassGroup>, class: Seq<char>) -> int
    decreases groups.len(),
{
    if groups.len() == 0 || groups[0].class_name == class {
        0
    } else {
        1 + group_of(groups.drop_first(), class)
    }
}

/// The groups with one more hook: in the group of its class, or in a new one
/// at the end.
pub open spec fn with_hook(groups: Seq<ClassGroup>, hook: MethodHook) -> Seq<ClassGroup> {
    let i = group_of(groups, hook.class_name@);
    if 0 <= i < groups.len() {
        groups.update(
            i,
            ClassGroup { class_name: groups[i].class_name, hooks: groups[i].hooks.push(hook) },
        )
    } else {
        groups.push(ClassGroup { class_name: hook.class_name@, hooks: seq![hook] })
    }
}

/// The hooks grouped by class, in the order in which they come.
pub open spec fn grouped(hooks: Seq<MethodHook>) -> Seq<ClassGroup>
    decreases hooks.len(),
{
    if hooks.len() == 0 {
        seq![]
    } else {
        with_hook(grouped(hooks.drop_last()), hooks.last())
    }
}

/// The groups as plain values.
pub open spec fn seen_groups(groups: Seq<ClassHooks>) -> Seq<ClassGroup> {
    groups.map_values(|g: ClassHooks| g@)
}

fn find_group(groups: &Vec<ClassHooks>, class: &str) -> (r: usize)
    ensures
        r == group_of(seen_groups(groups@), class@),
        r <= groups@.len(),
{
    let mut i: usize = 0;
    let ghost all = seen_groups(groups@);
    assert(all.skip(0) =~= all);
    while i < groups.len()
        invariant
            i <= groups@.len(),
            all == seen_groups(groups@),
            group_of(all, class@) == i + group_of(all.skip(i as int), class@),
        decreases groups@.len() - i,
    {
        assert(all.skip(i as int)[0] == groups@[i as int]@);
        if same_text(groups[i].class_name, class) {
            return i;
        }
        assert(all.skip(i as int).drop_first() =~= all.skip(i + 1));
        i = i + 1;
    }
    assert(all.skip(i as int).len() == 0);
    i
}

/// Groups the hooks by class, in the order in which they come.
pub fn do_hook_zygote(hooks: Vec<MethodHook>) -> (out: Vec<ClassHooks>)
    ensures
        seen_groups(out@) == grouped(hooks@),
{
    let mut out: Vec<ClassHooks> = Vec::new();
    let mut i: usize = 0;
    assert(seen_groups(out@) =~= seq![]);
    assert(hooks@.take(0).len() == 0);
    while i < hooks.len()
        invariant
            i <= hooks@.len(),
            seen_groups(out@) == grouped(hooks@.take(i as int)),
        decreases hooks@.len() - i,
    {
        let ghost upto = hooks@.take(i + 1);
        assert(upto.drop_last() =~= hooks@.take(i as int));
        assert(upto.last() == hooks@[i as int]);
        let hook = copy_hook(&hooks[i]);
        add_hook(&mut out, hook);
        i = i + 1;
    }
    assert(hooks@.take(i as int) =~= hooks@);
    out
}

fn copy_hook(hook: &MethodHook) -> (r: MethodHook)
    ensures
        r == *hook,
{
    MethodHook {
        class_name: hook.class_name,
        name: hook.name,
        signature: hook.signature,
        overload: hook.overload,
    }
}

fn add_hook(out: &mut Vec<ClassHooks>, hook: MethodHook)
    ensures
        seen_groups(final(out)@) == with_hook(seen_groups(old(out)@), hook),
{
    let i: usize = find_group(out, hook.class_name);
    let ghost before = out@;
    if i < out.len() {
        let group = &mut out[i];
        group.hooks.push(hook);
        assert(seen_groups(out@) =~= with_hook(seen_groups(before), hook));
    } else {
        let class_name = hook.class_name;
        let mut hooks: Vec<MethodHook> = Vec::new();
        hooks.push(hook);
        assert(hooks@ =~= seq![hook]);
        out.push(ClassHooks { class_name, hooks });
        assert(seen_groups(out@) =~= with_hook(seen_groups(before), hook));
    }
}

proof fn lemma_group_of(groups: Seq<ClassGroup>, class: Seq<char>)
    ensures
        0 <= group_of(groups, class) <= groups.len(),
        group_of(groups, class) < groups.len() ==> groups[group_of(groups, class)].class_name
            == class,
        forall|j: int|
            0 <= j < group_of(groups, class) ==> (#[trigger] groups[j]).class_name != class,
    decreases groups.len(),
{
    if groups.len() > 0 && groups[0].class_name != class {
        let rest = groups.drop_first();
        lemma_group_of(rest, class);
        assert forall|j: int| 0 <= j < group_of(groups, class) implies (
        #[trigger] groups[j]).class_name != class by {
            if j > 0 {
                assert(groups[j] == rest[j - 1]);
            }
        }
        if group_of(groups, class) < groups.len() {
            assert(groups[group_of(groups, class)] == rest[group_of(rest, class)]);
        }
    }
}

/// The hooks of a class.
pub open spec fn hooks_of(hooks: Seq<MethodHook>, class: Seq<char>) -> Seq<MethodHook> {
    hooks.filter(|h: MethodHook| h.class_name@ == class)
}

/// The group of a class holds the hooks of that class and no others, in the
/// order in which they come; a class without hooks has no group.
pub proof fn law_groups_keep_the_order(hooks: Seq<MethodHook>, class: Seq<char>)
    ensures
        ({
            let groups = grouped(hooks);
            let i = group_of(groups, class);
            if i < groups.len() {
                groups[i].class_name == class && groups[i].hooks == hooks_of(hooks, class)
            } else {
                hooks_of(hooks, class).len() == 0
            }
        }),
    decreases hooks.len(),
{
    reveal(Seq::filter);
    if hooks.len() > 0 {
        let rest = hooks.drop_last();
        let hook = hooks.last();
        law_groups_keep_the_order(rest, class);
        let before = grouped(rest);
        let after = grouped(hooks);
        lemma_group_of(before, class);
        lemma_group_of(after, class);
        lemma_group_of(before, hook.class_name@);
        let i = group_of(before, class);
        let k = group_of(after, class);
        let p = group_of(before, hook.class_name@);
        if i < before.len() {
            assert(after[i].class_name == class);
            assert(k == i) by {
                if k < i {
                    assert(after[k].class_name == before[k].class_name);
                }
                if i < k {
                    assert(after[i].class_name != class);
                }
            }
            if hook.class_name@ == class {
                assert(p == i);
            } else {
                assert(p != i);
            }
        } else {
            if hook.class_name@ == class {
                assert(p == before.len());
                assert(after[before.len() as int].class_name == class);
                assert(k == before.len()) by {
                    if k < before.len() {
                        assert(before[k].class_name != class);
                        assert(after[k] == before[k]);
                    }
                    if k > before.len() {
                        assert(after[before.len() as int].class_name != class);
                    }
                }
                assert(hooks_of(hooks, class) =~= seq![hook]);
            } else if k < after.len() {
                if k < before.len() {
                    assert(after[k].class_name == before[k].class_name);
                    assert(before[k].class_name != class);
                }
            }
        }
    }
}

/// What is found out of one method.
#[derive(Clone, Copy, Debug, PartialEq, Eq, Structural)]
pub struct MethodProbe {
    /// The class has it.
    pub found: bool,
    /// Its modifiers, if they could be read without an exception.
    pub modifier: Option<i32>,
    /// The function that stands for it.
    pub original: usize,
}

/// The most methods of one class that are hooked.
pub const MAX_METHODS: usize = 32;

/// A method can be hooked: the class has it, and it is native.
pub open spec fn can_hook(probe: MethodProbe, native: i32) -> bool {
    probe.found && (probe.modifier matches Some(m) && m & native != 0)
}

fn hookable(probe: &MethodProbe, native: i32) -> (r: bool)
    ensures
        r == can_hook(*probe, native),
{
    match probe.modifier {
        Some(m) => probe.found && (m & native) != 0,
        None => false,
    }
}

/// The functions that stood for the three methods before they were hooked;
/// zero until then.
#[derive(Clone, Copy, Debug, PartialEq, Eq, Structural)]
pub struct Originals {
    /// That which forks an app.
    pub fork_app: usize,
    /// That which turns a process into an app.
    pub specialize_app: usize,
    /// That which forks the system server.
    pub fork_server: usize,
}

/// The function that is known for a way of starting.
pub open spec fn original_of(known: Originals, kind: StartKind) -> usize {
    match kind {
        StartKind::ForkApp => known.fork_app,
        StartKind::SpecializeApp => known.specialize_app,
        StartKind::ForkServer => known.fork_server,
    }
}

/// What is known after a method was hooked: the first function stays.
pub open spec fn with_original(known: Originals, kind: StartKind, original: usize) -> Originals {
    if original_of(known, kind) != 0 {
        known
    } else {
        match kind {
            StartKind::ForkApp => Originals { fork_app: original, ..known },
            StartKind::SpecializeApp => Originals { specialize_app: original, ..known },
            StartKind::ForkServer => Originals { fork_server: original, ..known },
        }
    }
}

fn note_original(known: &mut Originals, kind: StartKind, original: usize)
    ensures
        *final(known) == with_original(*old(known), kind, original),
{
    match kind {
        StartKind::ForkApp => {
            if known.fork_app == 0 {
                known.fork_app = original;
            }
        },
        StartKind::SpecializeApp => {
            if known.specialize_app == 0 {
                known.specialize_app = original;
            }
        },
        StartKind::ForkServer => {
            if known.fork_server == 0 {
                known.fork_server = original;
            }
        },
    }
}

/// The places of the first methods that can be hooked, up to the limit.
pub open spec fn hooked_places(probes: Seq<MethodProbe>, native: i32) -> Seq<int>
    decreases probes.len(),
{
    if probes.len() == 0 {
        seq![]
    } else {
        let before = hooked_places(probes.drop_last(), native);
        if can_hook(probes.last(), native) && before.len() < MAX_METHODS {
            before.push(probes.len() - 1)
        } else {
            before
        }
    }
}

/// What is known after the methods at these places were hooked.
pub open spec fn originals_after(
    known: Originals,
    hooks: Seq<MethodHook>,
    probes: Seq<MethodProbe>,
    places: Seq<int>,
) -> Originals
    decreases places.len(),
{
    if places.len() == 0 {
        known
    } else {
        let p = places.last();
        with_original(
            originals_after(known, hooks, probes, places.drop_last()),
            family(hooks[p].overload),
            probes[p].original,
        )
    }
}

/// Selects the methods of a class to hook, and notes the functions that stood
/// for them. The result lists their places.
pub fn hook_zygote_methods_str(
    known: &mut Originals,
    hooks: &Vec<MethodHook>,
    probes: &Vec<MethodProbe>,
    native: i32,
) -> (places: Vec<usize>)
    requires
        hooks@.len() == probes@.len(),
    ensures
        places@.map_values(|p: usize| p as int) == hooked_places(probes@, native),
        *final(known) == originals_after(
            *old(known),
            hooks@,
            probes@,
            hooked_places(probes@, native),
        ),
{
    let mut places: Vec<usize> = Vec::new();
    let mut i: usize = 0;
    let ghost as_int = |p: usize| p as int;
    assert(probes@.take(0).len() == 0);
    assert(places@.map_values(as_int) =~= seq![]);
    while i < probes.len()
        invariant
            i <= probes@.len(),
            hooks@.len() == probes@.len(),
            as_int == (|p: usize| p as int),
            places@.map_values(as_int) == hooked_places(probes@.take(i as int), native),
            *known == originals_after(
                *old(known),
                hooks@,
                probes@,
                hooked_places(probes@.take(i as int), native),
            ),
        decreases probes@.len() - i,
    {
        let ghost upto = probes@.take(i + 1);
        let ghost before = hooked_places(probes@.take(i as int), native);
        assert(upto.drop_last() =~= probes@.take(i as int));
        assert(upto.last() == probes@[i as int]);
        assert(places@.len() == before.len());
        if hookable(&probes[i], native) && places.len() < MAX_METHODS {
            let ghost old_places = places@;
            places.push(i);
            note_original(known, hooks[i].overload.kind(), probes[i].original);
            proof {
                let now = before.push(i as int);
                assert(now.drop_last() =~= before);
                assert(places@.map_values(as_int) =~= now);
            }
        }
        i = i + 1;
    }
    assert(probes@.take(i as int) =~= probes@);
    places
}

/// The entry by which the methods of a class are put back: the names, the
/// signatures, and the functions that stood for them.
pub fn unhook_entry(
    class_name: &str,
    hooks: &Vec<MethodHook>,
    probes: &Vec<MethodProbe>,
    places: &Vec<usize>,
) -> (entry: JniHookEntry)
    requires
        hooks@.len() == probes@.len(),
        forall|k: int| 0 <= k < places@.len() ==> #[trigger] places@[k] < hooks@.len(),
    ensures
        entry.class_name@ == class_name@,
        entry.methods@.len() == places@.len(),
        forall|k: int|
            0 <= k < places@.len() ==> {
                let p = #[trigger] places@[k] as int;
                &&& entry.methods@[k].name_text() == Some(hooks@[p].name@)
                &&& entry.methods@[k].signature_text() == Some(hooks@[p].signature@)
                &&& entry.methods@[k].fn_ptr == probes@[p].original
            },
{
    let mut methods: Vec<NativeMethod> = Vec::new();
    let mut k: usize = 0;
    while k < places.len()
        invariant
            k <= places@.len(),
            hooks@.len() == probes@.len(),
            forall|j: int| 0 <= j < places@.len() ==> #[trigger] places@[j] < hooks@.len(),
            methods@.len() == k,
            forall|j: int|
                0 <= j < k ==> {
                    let p = #[trigger] places@[j] as int;
                    &&& methods@[j].name_text() == Some(hooks@[p].name@)
                    &&& methods@[j].signature_text() == Some(hooks@[p].signature@)
                    &&& methods@[j].fn_ptr == probes@[p].original
                },
        decreases places@.len() - k,
    {
        let p: usize = places[k];
        methods.push(
            NativeMethod {
                name: Some(String::from_str(hooks[p].name)),
                signature: Some(String::from_str(hooks[p].signature)),
                fn_ptr: probes[p].original,
            },
        );
        k = k + 1;
    }
    JniHookEntry { class_name: String::from_str(class_name), methods }
}

/// The method has a name and a signature.
pub open spec fn is_named(m: NativeMethod) -> bool {
    m.name is Some && m.signature is Some
}

/// A method that a module gave can be hooked.
pub open spec fn takes_hook(m: NativeMethod, probe: MethodProbe, native: i32) -> bool {
    is_named(m) && can_hook(probe, native)
}

/// The places of the methods that a module has hooked, up to the limit.
pub open spec fn taken_places(methods: Seq<NativeMethod>, probes: Seq<MethodProbe>, native: i32)
    -> Seq<int>
    decreases probes.len(),
{
    if probes.len() == 0 {
        seq![]
    } else {
        let before = taken_places(methods, probes.drop_last(), native);
        let i = probes.len() - 1;
        if takes_hook(methods[i], probes[i], native) && before.len() < MAX_METHODS {
            before.push(i)
        } else {
            before
        }
    }
}

/// Selects the methods that a module wants hooked. Each method that can be
/// hooked gets the function that stood for it, every other one gets none; the
/// result lists the places of those to register with the module's functions.
/// `class_found` is false where the class is not there: nothing is left of
/// the methods then.
pub fn hook_jni_methods(
    can_hook_jni: bool,
    class_found: bool,
    methods: &mut Vec<NativeMethod>,
    probes: &Vec<MethodProbe>,
    native: i32,
) -> (places: Vec<usize>)
    requires
        old(methods)@.len() == probes@.len(),
    ensures
        final(methods)@.len() == old(methods)@.len(),
        if !can_hook_jni {
            places@.len() == 0 && final(methods)@ == old(methods)@
        } else if !class_found {
            &&& places@.len() == 0
            &&& forall|i: int|
                0 <= i < final(methods)@.len() ==> {
                    let m = #[trigger] final(methods)@[i];
                    m.name is None && m.signature is None && m.fn_ptr == 0
                }
        } else {
            &&& places@.map_values(|p: usize| p as int) == taken_places(
                old(methods)@,
                probes@,
                native,
            )
            &&& forall|i: int|
                0 <= i < final(methods)@.len() ==> {
                    let m = #[trigger] final(methods)@[i];
                    let was = old(methods)@[i];
                    &&& m.name == was.name
                    &&& m.signature == was.signature
                    &&& m.fn_ptr == if takes_hook(was, probes@[i], native) {
                        probes@[i].original
                    } else {
                        0
                    }
                }
        },
{
    let mut places: Vec<usize> = Vec::new();
    if !can_hook_jni {
        return places;
    }
    if !class_found {
        blank_methods(methods);
        return places;
    }
    let mut i: usize = 0;
    let ghost first = methods@;
    let ghost as_int = |p: usize| p as int;
    assert(probes@.take(0).len() == 0);
    assert(places@.map_values(as_int) =~= seq![]);
    while i < probes.len()
        invariant
            i <= probes@.len(),
            first == old(methods)@,
            first.len() == probes@.len(),
            methods@.len() == first.len(),
            as_int == (|p: usize| p as int),
            places@.map_values(as_int) == taken_places(first, probes@.take(i as int), native),
            forall|j: int|
                0 <= j < i ==> {
                    let m = #[trigger] methods@[j];
                    &&& m.name == first[j].name
                    &&& m.signature == first[j].signature
                    &&& m.fn_ptr == if takes_hook(first[j], probes@[j], native) {
                        probes@[j].original
                    } else {
                        0
                    }
                },
            forall|j: int| i <= j < first.len() ==> #[trigger] methods@[j] == first[j],
        decreases probes@.len() - i,
    {
        let ghost upto = probes@.take(i + 1);
        let ghost before = taken_places(first, probes@.take(i as int), native);
        assert(upto.drop_last() =~= probes@.take(i as int));
        assert(upto[i as int] == probes@[i as int]);
        assert(places@.len() == before.len());
        let named = methods[i].name.is_some() && methods[i].signature.is_some();
        let taken = named && hookable(&probes[i], native);
        if taken && places.len() < MAX_METHODS {
            places.push(i);
            proof {
                assert(places@.map_values(as_int) =~= before.push(i as int));
            }
        }
        let original: usize = if taken {
            probes[i].original
        } else {
            0
        };
        set_function(methods, i, original);
        i = i + 1;
    }
    assert(probes@.take(i as int) =~= probes@);
    places
}

fn set_function(methods: &mut Vec<NativeMethod>, i: usize, fn_ptr: usize)
    requires
        i < old(methods)@.len(),
    ensures
        final(methods)@ == old(methods)@.update(
            i as int,
            NativeMethod { fn_ptr, ..old(methods)@[i as int] },
        ),
{
    let m = &mut methods[i];
    m.fn_ptr = fn_ptr;
}

fn blank_methods(methods: &mut Vec<NativeMethod>)
    ensures
        final(methods)@.len() == old(methods)@.len(),
        forall|i: int|
            0 <= i < final(methods)@.len() ==> {
                let m = #[trigger] final(methods)@[i];
                m.name is None && m.signature is None && m.fn_ptr == 0
            },
{
    let mut i: usize = 0;
    while i < methods.len()
        invariant
            i <= methods@.len(),
            methods@.len() == old(methods)@.len(),
            forall|j: int|
                0 <= j < i ==> {
                    let m = #[trigger] methods@[j];
                    m.name is None && m.signature is None && m.fn_ptr == 0
                },
        decreases methods@.len() - i,
    {
        methods.set(i, NativeMethod { name: None, signature: None, fn_ptr: 0 });
        i = i + 1;
    }
}

/// Takes the functions back from the methods of a module whose registration
/// failed: nothing was hooked.
pub fn registration_failed(methods: &mut Vec<NativeMethod>)
    ensures
        final(methods)@.len() == old(methods)@.len(),
        forall|i: int|
            0 <= i < final(methods)@.len() ==> #[trigger] final(methods)@[i] == (NativeMethod {
                fn_ptr: 0,
                ..old(methods)@[i]
            }),
{
    let mut i: usize = 0;
    while i < methods.len()
        invariant
            i <= methods@.len(),
            methods@.len() == old(methods)@.len(),
            forall|j: int|
                0 <= j < i ==> #[trigger] methods@[j] == (NativeMethod {
                    fn_ptr: 0,
                    ..old(methods)@[j]
                }),
            forall|j: int| i <= j < methods@.len() ==> #[trigger] methods@[j] == old(methods)@[j],
        decreases methods@.len() - i,
    {
        set_function(methods, i, 0);
        i = i + 1;
    }
}

/// The first mapping of the library that knows the virtual machine.
pub fn find_native_helper(paths: &Vec<String>) -> (r: Option<usize>)
    ensures
        match r {
            Some(i) => {
                &&& i < paths@.len()
                &&& has_part(paths@[i as int]@, "/libnativehelper.so"@)
                &&& forall|j: int|
                    0 <= j < i ==> !has_part((#[trigger] paths@[j])@, "/libnativehelper.so"@)
            },
            None => forall|j: int|
                0 <= j < paths@.len() ==> !has_part((#[trigger] paths@[j])@, "/libnativehelper.so"@),
        },
{
    let mut i: usize = 0;
    while i < paths.len()
        invariant
            i <= paths@.len(),
            forall|j: int|
                0 <= j < i ==> !has_part((#[trigger] paths@[j])@, "/libnativehelper.so"@),
        decreases paths@.len() - i,
    {
        if text_contains(paths[i].as_str(), "/libnativehelper.so") {
            return Some(i);
        }
        i = i + 1;
    }
    None
}

/// The steps to the first hooked method.
#[derive(Clone, Copy, Debug, PartialEq, Eq, Structural)]
pub enum JniHookPhase {
    /// Look for the function that knows the virtual machine.
    FindFunction,
    /// Read the mappings and look for the library that has it.
    ScanMaps,
    /// Open that library.
    OpenHelper,
    /// Look for the function there, and close the library.
    FindInHelper,
    /// Ask for the virtual machine.
    GetVm,
    /// Ask it for the environment of this thread.
    GetEnv,
    /// Find out how a method's modifiers are read, and which one marks a
    /// native method.
    ReadModifiers,
    /// Learn the layout of the runtime's methods.
    LearnLayout,
    /// Methods can be hooked from now on: hook those of the zygote.
    HookZygote,
    /// It is over; `true` if methods can be hooked.
    Over(bool),
}

/// The phase that follows one that succeeded or not.
pub open spec fn jni_hook_next(phase: JniHookPhase, ok: bool) -> JniHookPhase {
    let failed = JniHookPhase::Over(false);
    match phase {
        JniHookPhase::FindFunction => if ok {
            JniHookPhase::GetVm
        } else {
            JniHookPhase::ScanMaps
        },
        JniHookPhase::ScanMaps => if ok {
            JniHookPhase::OpenHelper
        } else {
            failed
        },
        JniHookPhase::OpenHelper => if ok {
            JniHookPhase::FindInHelper
        } else {
            failed
        },
        JniHookPhase::FindInHelper => if ok {
            JniHookPhase::GetVm
        } else {
            failed
        },
        JniHookPhase::GetVm => if ok {
            JniHookPhase::GetEnv
        } else {
            failed
        },
        JniHookPhase::GetEnv => if ok {
            JniHookPhase::ReadModifiers
        } else {
            failed
        },
        JniHookPhase::ReadModifiers => if ok {
            JniHookPhase::LearnLayout
        } else {
            failed
        },
        JniHookPhase::LearnLayout => if ok {
            JniHookPhase::HookZygote
        } else {
            failed
        },
        JniHookPhase::HookZygote => JniHookPhase::Over(true),
        JniHookPhase::Over(r) => JniHookPhase::Over(r),
    }
}

/// The next step to the first hooked method.
pub fn initialize_jni_hook(phase: JniHookPhase, ok: bool) -> (r: JniHookPhase)
    ensures
        r == jni_hook_next(phase, ok),
{
    let failed = JniHookPhase::Over(false);
    match phase {
        JniHookPhase::FindFunction => if ok {
            JniHookPhase::GetVm
        } else {
            JniHookPhase::ScanMaps
        },
        JniHookPhase::ScanMaps => if ok {
            JniHookPhase::OpenHelper
        } else {
            failed
        },
        JniHookPhase::OpenHelper => if ok {
            JniHookPhase::FindInHelper
        } else {
            failed
        },
        JniHookPhase::FindInHelper => if ok {
            JniHookPhase::GetVm
        } else {
            failed
        },
        JniHookPhase::GetVm => if ok {
            JniHookPhase::GetEnv
        } else {
            failed
        },
        JniHookPhase::GetEnv => if ok {
            JniHookPhase::ReadModifiers
        } else {
            failed
        },
        JniHookPhase::ReadModifiers => if ok {
            JniHookPhase::LearnLayout
        } else {
            failed
        },
        JniHookPhase::LearnLayout => if ok {
            JniHookPhase::HookZygote
        } else {
            failed
        },
        JniHookPhase::HookZygote => JniHookPhase::Over(true),
        JniHookPhase::Over(r) => JniHookPhase::Over(r),
    }
}

/// The steps that are left at most.
pub open spec fn steps_left(phase: JniHookPhase) -> nat {
    match phase {
        JniHookPhase::FindFunction => 9,
        JniHookPhase::ScanMaps => 8,
        JniHookPhase::OpenHelper => 7,
        JniHookPhase::FindInHelper => 6,
        JniHookPhase::GetVm => 5,
        JniHookPhase::GetEnv => 4,
        JniHookPhase::ReadModifiers => 3,
        JniHookPhase::LearnLayout => 2,
        JniHookPhase::HookZygote => 1,
        JniHookPhase::Over(_) => 0,
    }
}

/// The way ends, and methods are hooked only after every step before
/// succeeded: the layout and the native mark are known then.
pub proof fn law_methods_are_hooked_last(phase: JniHookPhase, ok: bool)
    ensures
        !(phase is Over) ==> steps_left(jni_hook_next(phase, ok)) < steps_left(phase),
        jni_hook_next(phase, ok) == JniHookPhase::HookZygote ==> phase
            == JniHookPhase::LearnLayout && ok,
        jni_hook_next(phase, ok) == JniHookPhase::LearnLayout ==> phase
            == JniHookPhase::ReadModifiers && ok,
{
}

/// Whether native methods can be told from others.
pub fn knows_native_methods(reads_modifiers: bool, native: i32) -> (r: bool)
    ensures
        r == (reads_modifiers && native != 0),
{
    reads_modifiers && native != 0
}

/// The place in an app's signature behind the name of the process: the label
/// of the system's rules may be followed by two numbers.
pub open spec fn behind_the_name(s: Seq<char>) -> int {
    if s[28] == 'I' {
        48
    } else {
        46
    }
}

/// The place of the last flag in an app's signature, if it ends in one: a list
/// of long numbers may follow it.
pub open spec fn last_flag(s: Seq<char>) -> int {
    if s[s.len() - 3] == 'J' && s[s.len() - 4] == '[' {
        s.len() - 5
    } else {
        s.len() - 3
    }
}

/// What modules see of an app's start is what the signature of its form has:
/// the list of files to leave open where two lists of files follow the name,
/// the mark of a child zygote where a flag follows them, and the later
/// arguments as the flags at the end tell; what a form does not have is zero,
/// and what all forms have is always there.
#[verifier::rlimit(60)]
#[verifier::spinoff_prover]
pub proof fn law_arguments_follow_the_signature(
    o: Overload,
    s: &'static str,
    all: AppSpecializeArgsV5,
    args: AppSpecializeArgsV5,
)
    requires
        call_ensures(Overload::signature, (o,), s),
        call_ensures(Overload::app_args, (o, all), args),
        o != Overload::ServerL,
        o != Overload::ServerSamsungQ,
    ensures
        ({
            let q = behind_the_name(s@);
            let e = last_flag(s@);
            let files = s@[q] == '[' && s@[q + 2] == '[';
            let c = if files {
                q + 4
            } else if s@[q] == '[' {
                q + 2
            } else {
                q
            };
            &&& s@.len() >= 60
            &&& args.fds_to_ignore == if files {
                all.fds_to_ignore
            } else {
                0
            }
            &&& args.is_child_zygote == if s@[c] == 'Z' {
                all.is_child_zygote
            } else {
                0
            }
            &&& args.is_top_app == if s@[e] == 'Z' {
                all.is_top_app
            } else {
                0
            }
            &&& s@[e] == 'Z' && s@[e - 1] == 'Z' ==> {
                &&& args.pkg_data_info_list == all.pkg_data_info_list
                &&& args.whitelisted_data_info_list == all.whitelisted_data_info_list
                &&& args.mount_data_dirs == all.mount_data_dirs
                &&& args.mount_storage_dirs == all.mount_storage_dirs
            }
            &&& !(s@[e] == 'Z' && s@[e - 1] == 'Z') ==> {
                &&& args.pkg_data_info_list == 0
                &&& args.whitelisted_data_info_list == 0
                &&& args.mount_data_dirs == 0
                &&& args.mount_storage_dirs == 0
            }
            &&& args.mount_sysprop_overrides == if s@[e] == 'Z' && s@[e - 1] == 'Z' && s@[e - 2]
                == 'Z' {
                all.mount_sysprop_overrides
            } else {
                0
            }
        }),
        args.uid == all.uid,
        args.gid == all.gid,
        args.gids == all.gids,
        args.runtime_flags == all.runtime_flags,
        args.rlimits == all.rlimits,
        args.mount_external == all.mount_external,
        args.se_info == all.se_info,
        args.nice_name == all.nice_name,
        args.instruction_set == all.instruction_set,
        args.app_data_dir == all.app_data_dir,
{
    match o {
        Overload::ForkL => {
            reveal_strlit("(II[II[[IILjava/lang/String;Ljava/lang/String;[ILjava/lang/String;Ljava/lang/String;)I");
        },
        Overload::ForkO => {
            reveal_strlit("(II[II[[IILjava/lang/String;Ljava/lang/String;[I[ILjava/lang/String;Ljava/lang/String;)I");
        },
        Overload::ForkP => {
            reveal_strlit("(II[II[[IILjava/lang/String;Ljava/lang/String;[I[IZLjava/lang/String;Ljava/lang/String;)I");
        },
        Overload::ForkQAlt => {
            reveal_strlit("(II[II[[IILjava/lang/String;Ljava/lang/String;[I[IZLjava/lang/String;Ljava/lang/String;Z)I");
        },
        Overload::ForkR => {
            reveal_strlit("(II[II[[IILjava/lang/String;Ljava/lang/String;[I[IZLjava/lang/String;Ljava/lang/String;Z[Ljava/lang/String;[Ljava/lang/String;ZZ)I");
        },
        Overload::ForkU => {
            reveal_strlit("(II[II[[IILjava/lang/String;Ljava/lang/String;[I[IZLjava/lang/String;Ljava/lang/String;Z[Ljava/lang/String;[Ljava/lang/String;ZZZ)I");
        },
        Overload::ForkV => {
            reveal_strlit("(II[II[[IILjava/lang/String;Ljava/lang/String;[I[IZLjava/lang/String;Ljava/lang/String;ZZ[Ljava/lang/String;[Ljava/lang/String;ZZZ)I");
        },
        Overload::ForkSamsungM => {
            reveal_strlit("(II[II[[IILjava/lang/String;IILjava/lang/String;[ILjava/lang/String;Ljava/lang/String;)I");
        },
        Overload::ForkSamsungN => {
            reveal_strlit("(II[II[[IILjava/lang/String;IILjava/lang/String;[ILjava/lang/String;Ljava/lang/String;I)I");
        },
        Overload::ForkSamsungO => {
            reveal_strlit("(II[II[[IILjava/lang/String;IILjava/lang/String;[I[ILjava/lang/String;Ljava/lang/String;)I");
        },
        Overload::ForkSamsungP => {
            reveal_strlit("(II[II[[IILjava/lang/String;IILjava/lang/String;[I[IZLjava/lang/String;Ljava/lang/String;)I");
        },
        Overload::ForkSamsungB => {
            reveal_strlit("(II[II[[IILjava/lang/String;Ljava/lang/String;[I[IZLjava/lang/String;Ljava/lang/String;ZZ[Ljava/lang/String;[Ljava/lang/String;ZZZ)I");
        },
        Overload::ForkGrapheneosU => {
            reveal_strlit("(II[II[[IILjava/lang/String;Ljava/lang/String;[I[IZLjava/lang/String;Ljava/lang/String;Z[Ljava/lang/String;[Ljava/lang/String;ZZZ[J)I");
        },
        Overload::SpecializeQ => {
            reveal_strlit("(II[II[[IILjava/lang/String;Ljava/lang/String;ZLjava/lang/String;Ljava/lang/String;)V");
        },
        Overload::SpecializeQAlt => {
            reveal_strlit("(II[II[[IILjava/lang/String;Ljava/lang/String;ZLjava/lang/String;Ljava/lang/String;Z)V");
        },
        Overload::SpecializeR => {
            reveal_strlit("(II[II[[IILjava/lang/String;Ljava/lang/String;ZLjava/lang/String;Ljava/lang/String;Z[Ljava/lang/String;[Ljava/lang/String;ZZ)V");
        },
        Overload::SpecializeU => {
            reveal_strlit("(II[II[[IILjava/lang/String;Ljava/lang/String;ZLjava/lang/String;Ljava/lang/String;Z[Ljava/lang/String;[Ljava/lang/String;ZZZ)V");
        },
        Overload::SpecializeSamsungQ => {
            reveal_strlit("(II[II[[IILjava/lang/String;IILjava/lang/String;ZLjava/lang/String;Ljava/lang/String;)V");
        },
        Overload::SpecializeGrapheneosU => {
            reveal_strlit("(II[II[[IILjava/lang/String;Ljava/lang/String;ZLjava/lang/String;Ljava/lang/String;Z[Ljava/lang/String;[Ljava/lang/String;ZZZ[J)V");
        },
        Overload::ServerL => {
            reveal_strlit("(II[II[[IJJ)I");
        },
        Overload::ServerSamsungQ => {
            reveal_strlit("(II[IIII[[IJJ)I");
        },
    }
}

/// A form that returns nothing turns a process into an app, one that returns a
/// number and ends in two long numbers forks the system server, and every
/// other forks an app; the three have different names.
#[verifier::rlimit(60)]
#[verifier::spinoff_prover]
pub proof fn law_signature_tells_what_is_started(
    o: Overload,
    s: &'static str,
    kind: StartKind,
    name: &'static str,
)
    requires
        call_ensures(Overload::signature, (o,), s),
        call_ensures(Overload::kind, (o,), kind),
        call_ensures(Overload::name, (o,), name),
    ensures
        ({
            let n = s@.len() as int;
            &&& n > 4
            &&& s@[0] == '('
            &&& s@[n - 2] == ')'
            &&& kind == StartKind::SpecializeApp <==> s@[n - 1] == 'V'
            &&& kind == StartKind::ForkServer <==> s@[n - 1] == 'I' && s@[n - 3] == 'J' && s@[n - 4]
                == 'J'
            &&& s@[n - 1] == 'V' || s@[n - 1] == 'I'
        }),
        name@ == "nativeSpecializeAppProcess"@ <==> kind == StartKind::SpecializeApp,
        name@ == "nativeForkSystemServer"@ <==> kind == StartKind::ForkServer,
        name@ == "nativeForkAndSpecialize"@ <==> kind == StartKind::ForkApp,
{
    reveal_strlit("nativeSpecializeAppProcess");
    reveal_strlit("nativeForkSystemServer");
    reveal_strlit("nativeForkAndSpecialize");
    assert("nativeSpecializeAppProcess"@[6] == 'S');
    assert("nativeForkSystemServer"@[6] == 'F');
    assert("nativeForkAndSpecialize"@[6] == 'F');
    assert("nativeForkSystemServer"@[10] == 'S');
    assert("nativeForkAndSpecialize"@[10] == 'A');
    match o {
        Overload::ForkL => {
            reveal_strlit("(II[II[[IILjava/lang/String;Ljava/lang/String;[ILjava/lang/String;Ljava/lang/String;)I");
        },
        Overload::ForkO => {
            reveal_strlit("(II[II[[IILjava/lang/String;Ljava/lang/String;[I[ILjava/lang/String;Ljava/lang/String;)I");
        },
        Overload::ForkP => {
            reveal_strlit("(II[II[[IILjava/lang/String;Ljava/lang/String;[I[IZLjava/lang/String;Ljava/lang/String;)I");
        },
        Overload::ForkQAlt => {
            reveal_strlit("(II[II[[IILjava/lang/String;Ljava/lang/String;[I[IZLjava/lang/String;Ljava/lang/String;Z)I");
        },
        Overload::ForkR => {
            reveal_strlit("(II[II[[IILjava/lang/String;Ljava/lang/String;[I[IZLjava/lang/String;Ljava/lang/String;Z[Ljava/lang/String;[Ljava/lang/String;ZZ)I");
        },
        Overload::ForkU => {
            reveal_strlit("(II[II[[IILjava/lang/String;Ljava/lang/String;[I[IZLjava/lang/String;Ljava/lang/String;Z[Ljava/lang/String;[Ljava/lang/String;ZZZ)I");
        },
        Overload::ForkV => {
            reveal_strlit("(II[II[[IILjava/lang/String;Ljava/lang/String;[I[IZLjava/lang/String;Ljava/lang/String;ZZ[Ljava/lang/String;[Ljava/lang/String;ZZZ)I");
        },
        Overload::ForkSamsungM => {
            reveal_strlit("(II[II[[IILjava/lang/String;IILjava/lang/String;[ILjava/lang/String;Ljava/lang/String;)I");
        },
        Overload::ForkSamsungN => {
            reveal_strlit("(II[II[[IILjava/lang/String;IILjava/lang/String;[ILjava/lang/String;Ljava/lang/String;I)I");
        },
        Overload::ForkSamsungO => {
            reveal_strlit("(II[II[[IILjava/lang/String;IILjava/lang/String;[I[ILjava/lang/String;Ljava/lang/String;)I");
        },
        Overload::ForkSamsungP => {
            reveal_strlit("(II[II[[IILjava/lang/String;IILjava/lang/String;[I[IZLjava/lang/String;Ljava/lang/String;)I");
        },
        Overload::ForkSamsungB => {
            reveal_strlit("(II[II[[IILjava/lang/String;Ljava/lang/String;[I[IZLjava/lang/String;Ljava/lang/String;ZZ[Ljava/lang/String;[Ljava/lang/String;ZZZ)I");
        },
        Overload::ForkGrapheneosU => {
            reveal_strlit("(II[II[[IILjava/lang/String;Ljava/lang/String;[I[IZLjava/lang/String;Ljava/lang/String;Z[Ljava/lang/String;[Ljava/lang/String;ZZZ[J)I");
        },
        Overload::SpecializeQ => {
            reveal_strlit("(II[II[[IILjava/lang/String;Ljava/lang/String;ZLjava/lang/String;Ljava/lang/String;)V");
        },
        Overload::SpecializeQAlt => {
            reveal_strlit("(II[II[[IILjava/lang/String;Ljava/lang/String;ZLjava/lang/String;Ljava/lang/String;Z)V");
        },
        Overload::SpecializeR => {
            reveal_strlit("(II[II[[IILjava/lang/String;Ljava/lang/String;ZLjava/lang/String;Ljava/lang/String;Z[Ljava/lang/String;[Ljava/lang/String;ZZ)V");
        },
        Overload::SpecializeU => {
            reveal_strlit("(II[II[[IILjava/lang/String;Ljava/lang/String;ZLjava/lang/String;Ljava/lang/String;Z[Ljava/lang/String;[Ljava/lang/String;ZZZ)V");
        },
        Overload::SpecializeSamsungQ => {
            reveal_strlit("(II[II[[IILjava/lang/String;IILjava/lang/String;ZLjava/lang/String;Ljava/lang/String;)V");
        },
        Overload::SpecializeGrapheneosU => {
            reveal_strlit("(II[II[[IILjava/lang/String;Ljava/lang/String;ZLjava/lang/String;Ljava/lang/String;Z[Ljava/lang/String;[Ljava/lang/String;ZZZ[J)V");
        },
        Overload::ServerL => {
            reveal_strlit("(II[II[[IJJ)I");
        },
        Overload::ServerSamsungQ => {
            reveal_strlit("(II[IIII[[IJJ)I");
        },
    }
}

/// Each form is among the methods to hook, once, with its own signature.
pub proof fn law_all_forms_are_among_the_hooks(
    out: Vec<MethodHook>,
    o: Overload,
    s: &'static str,
    name: &'static str,
)
    requires
        call_ensures(jni_hooks, (), out),
        call_ensures(Overload::signature, (o,), s),
        call_ensures(Overload::name, (o,), name),
    ensures
        exists|i: int|
            0 <= i < out@.len() && #[trigger] out@[i].overload == o && out@[i].signature@ == s@
                && out@[i].name@ == name@,
        forall|i: int, j: int|
            0 <= i < out@.len() && 0 <= j < out@.len() && #[trigger] out@[i].overload
                == #[trigger] out@[j].overload ==> i == j,
{
    law_every_form_is_hooked_once(o);
    let i = choose|i: int| 0 <= i < all_overloads().len() && all_overloads()[i] == o;
    assert(out@[i].stands_for(o));
    assert forall|i: int, j: int|
        0 <= i < out@.len() && 0 <= j < out@.len() && #[trigger] out@[i].overload
            == #[trigger] out@[j].overload implies i == j by {
        let p = out@[i].overload;
        law_every_form_is_hooked_once(p);
        assert(out@[i].stands_for(all_overloads()[i]));
        assert(out@[j].stands_for(all_overloads()[j]));
        assert(all_overloads()[i] == p && all_overloads()[j] == p);
    }
}

/// A class has one group.
pub proof fn law_one_group_for_each_class(hooks: Seq<MethodHook>, i: int, j: int)
    requires
        0 <= i < grouped(hooks).len(),
        0 <= j < grouped(hooks).len(),
        grouped(hooks)[i].class_name == grouped(hooks)[j].class_name,
    ensures
        i == j,
    decreases hooks.len(),
{
    if hooks.len() > 0 {
        let before = grouped(hooks.drop_last());
        let class = hooks.last().class_name@;
        lemma_group_of(before, class);
        let g = group_of(before, class);
        if g < before.len() {
            law_one_group_for_each_class(hooks.drop_last(), i, j);
        } else if i < before.len() && j < before.len() {
            law_one_group_for_each_class(hooks.drop_last(), i, j);
        }
    }
}

/// A method of the zygote can be hooked: it was found, its modifiers could be
/// read, and they have the native mark.
pub open spec fn is_native(probe: MethodProbe, native: i32) -> bool {
    probe.found && probe.modifier is Some && probe.modifier->0 & native != 0
}

/// The methods that are hooked are native ones, in their order and no more
/// than the limit, and none is left out before the limit is reached.
pub proof fn law_first_native_methods_are_hooked(probes: Seq<MethodProbe>, native: i32)
    ensures
        ({
            let places = hooked_places(probes, native);
            &&& places.len() <= 32
            &&& forall|k: int|
                0 <= k < places.len() ==> 0 <= #[trigger] places[k] < probes.len() && is_native(
                    probes[places[k]],
                    native,
                )
            &&& forall|k: int, l: int|
                0 <= k < l < places.len() ==> #[trigger] places[k] < #[trigger] places[l]
            &&& forall|i: int|
                0 <= i < probes.len() && #[trigger] is_native(probes[i], native)
                    && !places.contains(i) ==> places.len() == 32 && places.last() < i
        }),
    decreases probes.len(),
{
    if probes.len() > 0 {
        let front = probes.drop_last();
        let before = hooked_places(front, native);
        law_first_native_methods_are_hooked(front, native);
        let places = hooked_places(probes, native);
        assert forall|k: int| 0 <= k < places.len() implies 0 <= #[trigger] places[k]
            < probes.len() && is_native(probes[places[k]], native) by {
            if k < before.len() {
                assert(places[k] == before[k]);
                assert(front[before[k]] == probes[before[k]]);
            }
        }
        assert forall|i: int|
            0 <= i < probes.len() && #[trigger] is_native(probes[i], native) && !places.contains(
                i,
            ) implies places.len() == 32 && places.last() < i by {
            if places.len() > before.len() {
                assert(places[before.len() as int] == probes.len() - 1);
                if before.contains(i) {
                    let k = before.index_of(i);
                    assert(places[k] == i);
                }
            }
            if i < front.len() {
                assert(is_native(front[i], native));
            } else if places.len() == before.len() {
                assert(can_hook(probes.last(), native));
                assert(before[31] < front.len());
            }
        }
    }
}

/// Where no modifier marks a native method, native methods cannot be told from
/// others, and no method is hooked.
pub proof fn law_nothing_is_hooked_without_the_mark(
    known: &mut Originals,
    hooks: &Vec<MethodHook>,
    probes: &Vec<MethodProbe>,
    native: i32,
    reads: bool,
    knows: bool,
    places: Vec<usize>,
)
    requires
        hooks@.len() == probes@.len(),
        call_ensures(knows_native_methods, (reads, native), knows),
        call_ensures(hook_zygote_methods_str, (known, hooks, probes, native), places),
    ensures
        !knows && reads ==> places@.len() == 0 && *final(known) == *old(known),
        knows ==> native != 0 && reads,
{
    if !knows && reads {
        law_first_native_methods_are_hooked(probes@, native);
        let hooked = hooked_places(probes@, native);
        if hooked.len() > 0 {
            let m = probes@[hooked[0]].modifier->0;
            assert(m & 0i32 == 0) by (bit_vector);
        }
        assert(places@.map_values(|p: usize| p as int).len() == places@.len());
    }
}

/// The function that is noted for a way of starting is the first that is not
/// null among those of the hooked methods that start so; once one is noted it
/// stays.
pub proof fn law_first_original_stays(
    known: Originals,
    hooks: Seq<MethodHook>,
    probes: Seq<MethodProbe>,
    places: Seq<int>,
    kind: StartKind,
)
    requires
        hooks.len() == probes.len(),
        forall|k: int| 0 <= k < places.len() ==> 0 <= #[trigger] places[k] < hooks.len(),
    ensures
        ({
            let was = original_of(known, kind);
            let now = original_of(originals_after(known, hooks, probes, places), kind);
            &&& was != 0 ==> now == was
            &&& was == 0 && now != 0 ==> exists|k: int|
                0 <= k < places.len() && family(hooks[#[trigger] places[k]].overload) == kind
                    && probes[places[k]].original == now && forall|l: int|
                    0 <= l < k && family(hooks[#[trigger] places[l]].overload) == kind
                        ==> probes[places[l]].original == 0
            &&& now == 0 ==> forall|k: int|
                0 <= k < places.len() && family(hooks[#[trigger] places[k]].overload) == kind
                    ==> probes[places[k]].original == 0
        }),
    decreases places.len(),
{
    if places.len() > 0 {
        let front = places.drop_last();
        assert forall|k: int| 0 <= k < front.len() implies 0 <= #[trigger] front[k]
            < hooks.len() by {
            assert(front[k] == places[k]);
        }
        law_first_original_stays(known, hooks, probes, front, kind);
        let mid = original_of(originals_after(known, hooks, probes, front), kind);
        let now = original_of(originals_after(known, hooks, probes, places), kind);
        let last = places.len() - 1;
        assert forall|k: int| 0 <= k < front.len() implies front[k] == #[trigger] places[k] by {}
        if original_of(known, kind) == 0 && now != 0 {
            if mid != 0 {
                let k = choose|k: int|
                    0 <= k < front.len() && family(hooks[#[trigger] front[k]].overload) == kind
                        && probes[front[k]].original == mid && forall|l: int|
                        0 <= l < k && family(hooks[#[trigger] front[l]].overload) == kind
                            ==> probes[front[l]].original == 0;
                assert(places[k] == front[k]);
                assert forall|l: int|
                    0 <= l < k && family(hooks[#[trigger] places[l]].overload)
                        == kind implies probes[places[l]].original == 0 by {
                    assert(front[l] == places[l]);
                }
                assert(family(hooks[places[k]].overload) == kind && probes[places[k]].original
                    == now);
            } else {
                assert forall|l: int|
                    0 <= l < last && family(hooks[#[trigger] places[l]].overload)
                        == kind implies probes[places[l]].original == 0 by {
                    assert(front[l] == places[l]);
                }
                assert(family(hooks[places[last]].overload) == kind && probes[places[last]].original
                    == now);
            }
        }
        if now == 0 {
            assert forall|k: int|
                0 <= k < places.len() && family(hooks[#[trigger] places[k]].overload)
                    == kind implies probes[places[k]].original == 0 by {
                if k < last {
                    assert(front[k] == places[k]);
                }
            }
        }
    }
}

/// Each of the three functions is kept for its own way of starting.
pub proof fn law_originals_are_kept_apart(known: Originals, original: usize)
    requires
        known.fork_app == 0,
        known.specialize_app == 0,
        known.fork_server == 0,
    ensures
        with_original(known, StartKind::ForkApp, original) == (Originals {
            fork_app: original,
            specialize_app: 0,
            fork_server: 0,
        }),
        with_original(known, StartKind::SpecializeApp, original) == (Originals {
            fork_app: 0,
            specialize_app: original,
            fork_server: 0,
        }),
        with_original(known, StartKind::ForkServer, original) == (Originals {
            fork_app: 0,
            specialize_app: 0,
            fork_server: original,
        }),
{
}

/// Of the methods of a module the native ones that have a name and a signature
/// are taken, in their order and no more than the limit, and none is left out
/// before the limit is reached.
pub proof fn law_first_named_methods_are_taken(
    methods: Seq<NativeMethod>,
    probes: Seq<MethodProbe>,
    native: i32,
)
    requires
        methods.len() == probes.len(),
    ensures
        ({
            let places = taken_places(methods, probes, native);
            &&& places.len() <= 32
            &&& forall|k: int|
                0 <= k < places.len() ==> {
                    let p = #[trigger] places[k];
                    &&& 0 <= p < probes.len()
                    &&& methods[p].name is Some
                    &&& methods[p].signature is Some
                    &&& is_native(probes[p], native)
                }
            &&& forall|k: int, l: int|
                0 <= k < l < places.len() ==> #[trigger] places[k] < #[trigger] places[l]
            &&& forall|i: int|
                0 <= i < probes.len() && #[trigger] is_native(probes[i], native)
                    && methods[i].name is Some && methods[i].signature is Some
                    && !places.contains(i) ==> places.len() == 32 && places.last() < i
        }),
    decreases probes.len(),
{
    if probes.len() > 0 {
        let front = probes.drop_last();
        let some = methods.drop_last();
        let before = taken_places(methods, front, native);
        lemma_taken_from_the_front(methods, front, native);
        law_first_named_methods_are_taken(some, front, native);
        let places = taken_places(methods, probes, native);
        assert forall|k: int| 0 <= k < places.len() implies ({
            let p = #[trigger] places[k];
            &&& 0 <= p < probes.len()
            &&& methods[p].name is Some
            &&& methods[p].signature is Some
            &&& is_native(probes[p], native)
        }) by {
            if k < before.len() {
                assert(places[k] == before[k]);
                assert(front[before[k]] == probes[before[k]]);
                assert(some[before[k]] == methods[before[k]]);
            }
        }
        assert forall|i: int|
            0 <= i < probes.len() && #[trigger] is_native(probes[i], native) && methods[i].name
                is Some && methods[i].signature is Some && !places.contains(
                i,
            ) implies places.len() == 32 && places.last() < i by {
            if places.len() > before.len() {
                assert(places[before.len() as int] == probes.len() - 1);
                if before.contains(i) {
                    let k = before.index_of(i);
                    assert(places[k] == i);
                }
            }
            if i < front.len() {
                assert(is_native(front[i], native));
                assert(some[i] == methods[i]);
            } else if places.len() == before.len() {
                assert(takes_hook(methods[i], probes[i], native));
                assert(before[31] < front.len());
            }
        }
    }
}

proof fn lemma_taken_from_the_front(
    methods: Seq<NativeMethod>,
    probes: Seq<MethodProbe>,
    native: i32,
)
    requires
        probes.len() < methods.len(),
    ensures
        taken_places(methods, probes, native) == taken_places(methods.drop_last(), probes, native),
    decreases probes.len(),
{
    if probes.len() > 0 {
        lemma_taken_from_the_front(methods, probes.drop_last(), native);
    }
}

/// A module is told the function that stood for each native method that it
/// named, and none for any other; it keeps its own names. Without the class
/// nothing is left of its methods, and where hooking is not possible they
/// stay as they were.
pub proof fn law_module_is_told_the_originals(
    can: bool,
    class_found: bool,
    methods: &mut Vec<NativeMethod>,
    probes: &Vec<MethodProbe>,
    native: i32,
    places: Vec<usize>,
    i: int,
)
    requires
        old(methods)@.len() == probes@.len(),
        0 <= i < probes@.len(),
        call_ensures(hook_jni_methods, (can, class_found, methods, probes, native), places),
    ensures
        final(methods)@.len() == old(methods)@.len(),
        !can ==> final(methods)@[i] == old(methods)@[i],
        can && !class_found ==> final(methods)@[i].name is None && final(methods)@[i].signature
            is None && final(methods)@[i].fn_ptr == 0,
        can && class_found ==> {
            let was = old(methods)@[i];
            let now = final(methods)@[i];
            &&& now.name == was.name
            &&& now.signature == was.signature
            &&& is_native(probes@[i], native) && was.name is Some && was.signature is Some
                ==> now.fn_ptr == probes@[i].original
            &&& !(is_native(probes@[i], native) && was.name is Some && was.signature is Some)
                ==> now.fn_ptr == 0
        },
        places@.len() > 0 ==> can && class_found,
        forall|k: int| 0 <= k < places@.len() ==> #[trigger] places@[k] < probes@.len(),
        forall|k: int|
            0 <= k < places@.len() ==> is_native(probes@[#[trigger] places@[k] as int], native),
{
    if can && class_found {
        law_first_named_methods_are_taken(old(methods)@, probes@, native);
        let taken = taken_places(old(methods)@, probes@, native);
        let mapped = places@.map_values(|p: usize| p as int);
        assert(mapped == taken);
        assert forall|k: int| 0 <= k < places@.len() implies #[trigger] places@[k]
            < probes@.len() && is_native(probes@[places@[k] as int], native) by {
            assert(mapped[k] == taken[k]);
        }
        assert(final(methods)@[i].name == old(methods)@[i].name);
    } else {
        assert(final(methods)@[i] == final(methods)@[i]);
    }
}

/// A failed registration takes every function back and leaves the names.
pub proof fn law_failed_registration_takes_all_back(methods: &mut Vec<NativeMethod>, i: int)
    requires
        0 <= i < old(methods)@.len(),
        call_ensures(registration_failed, (methods,), ()),
    ensures
        final(methods)@.len() == old(methods)@.len(),
        final(methods)@[i].fn_ptr == 0,
        final(methods)@[i].name == old(methods)@[i].name,
        final(methods)@[i].signature == old(methods)@[i].signature,
{
    assert(final(methods)@[i] == final(methods)@[i]);
}

/// Each step to the first hooked method comes only behind that which it needs.
pub proof fn law_steps_need_each_other(phase: JniHookPhase, ok: bool, next: JniHookPhase)
    requires
        call_ensures(initialize_jni_hook, (phase, ok), next),
    ensures
        next != JniHookPhase::FindFunction,
        next == JniHookPhase::ScanMaps ==> phase == JniHookPhase::FindFunction && !ok,
        next == JniHookPhase::OpenHelper ==> phase == JniHookPhase::ScanMaps && ok,
        next == JniHookPhase::FindInHelper ==> phase == JniHookPhase::OpenHelper && ok,
        next == JniHookPhase::GetVm ==> (phase == JniHookPhase::FindFunction || phase
            == JniHookPhase::FindInHelper) && ok,
        next == JniHookPhase::GetEnv ==> phase == JniHookPhase::GetVm && ok,
        next == JniHookPhase::ReadModifiers ==> phase == JniHookPhase::GetEnv && ok,
        next == JniHookPhase::LearnLayout ==> phase == JniHookPhase::ReadModifiers && ok,
        next == JniHookPhase::HookZygote ==> phase == JniHookPhase::LearnLayout && ok,
        next == JniHookPhase::Over(true) ==> phase == JniHookPhase::HookZygote || phase
            == JniHookPhase::Over(true),
        next == JniHookPhase::Over(false) ==> (!ok && phase != JniHookPhase::FindFunction && phase
            != JniHookPhase::HookZygote) || phase == JniHookPhase::Over(false),
        phase is Over ==> next == phase,
{
}

/// What the entry of a class puts back are the methods that were hooked, each
/// with the function that stood for it.
pub proof fn law_entry_puts_the_originals_back(
    class_name: &str,
    known: &mut Originals,
    hooks: &Vec<MethodHook>,
    probes: &Vec<MethodProbe>,
    native: i32,
    places: &Vec<usize>,
    entry: JniHookEntry,
    k: int,
)
    requires
        hooks@.len() == probes@.len(),
        call_ensures(hook_zygote_methods_str, (known, hooks, probes, native), *places),
        call_ensures(unhook_entry, (class_name, hooks, probes, places), entry),
        0 <= k < places@.len(),
    ensures
        entry.class_name@ == class_name@,
        entry.methods@.len() == places@.len(),
        ({
            let p = places@[k] as int;
            let m = entry.methods@[k];
            &&& 0 <= p < probes@.len()
            &&& is_native(probes@[p], native)
            &&& m.name is Some && m.name->0@ == hooks@[p].name@
            &&& m.signature is Some && m.signature->0@ == hooks@[p].signature@
            &&& m.fn_ptr == probes@[p].original
        }),
{
    law_first_native_methods_are_hooked(probes@, native);
    let mapped = places@.map_values(|p: usize| p as int);
    assert(mapped[k] == hooked_places(probes@, native)[k]);
    assert(places@[k] == mapped[k]);
}

} // verus!
