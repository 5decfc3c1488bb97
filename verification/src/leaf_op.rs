//! All leaf ops as one type.

use crate::cb::CbCache;
use crate::copies::CopyTo2;
use crate::entries::{Forward, Lift, Value};
use crate::error::{Error, OpResult};
use crate::exec_ctx::{Driver, ExecMode, ExecutionContext, Walk};
use crate::image_ops::{ImageCopy, ImageDownloadEager, ImageFill, ImageRead, ImageUploadEager, ImageWrite};
use crate::input::Input;
use crate::launch_op::Launch;
use crate::leaves::{
    AcquireDeviceView, AcquireDeviceViewRead, AcquireMappedView, AcquireMappedViewRead, Download, Fill,
    FillDeviceUninit, FillMapped, FillMappedUninit, FillUsmUninit, LeafNode, ReadInto,
    ReleaseDeviceView, ReleaseMappedView, TransferToDevice, WriteDevice, WriteDeviceUninit, WriteMapped,
    WriteMappedUninit, WriteUsmUninit,
};
use crate::seeds::{
    AllocZero, DeviceAllocUninit, MappedAllocUninit, ScalarUpload, ScalarZero, Upload, UsmAllocUninit,
    UsmSlice,
};
use crate::store::{Pipe, Store, World};
use vstd::prelude::*;

verus! {

/// An op without ops inside it.
pub enum LeafOp {
    Fill(Fill),
    FillDeviceUninit(FillDeviceUninit),
    FillMappedUninit(FillMappedUninit),
    FillUsmUninit(FillUsmUninit),
    FillMapped(FillMapped),
    WriteDeviceUninit(WriteDeviceUninit),
    WriteDevice(WriteDevice),
    WriteMappedUninit(WriteMappedUninit),
    WriteMapped(WriteMapped),
    WriteUsmUninit(WriteUsmUninit),
    ReadInto(ReadInto),
    AcquireDeviceView(AcquireDeviceView),
    AcquireDeviceViewRead(AcquireDeviceViewRead),
    ReleaseDeviceView(ReleaseDeviceView),
    AcquireMappedView(AcquireMappedView),
    AcquireMappedViewRead(AcquireMappedViewRead),
    ReleaseMappedView(ReleaseMappedView),
    Download(Download),
    TransferToDevice(TransferToDevice),
    Upload(Upload),
    ScalarUpload(ScalarUpload),
    ScalarZero(ScalarZero),
    UsmSlice(UsmSlice),
    AllocZero(AllocZero),
    DeviceAllocUninit(DeviceAllocUninit),
    MappedAllocUninit(MappedAllocUninit),
    UsmAllocUninit(UsmAllocUninit),
    CopyTo2(CopyTo2),
    Value(Value),
    Lift(Lift),
    Forward(Forward),
    ImageWrite(ImageWrite),
    ImageRead(ImageRead),
    ImageFill(ImageFill),
    ImageCopy(ImageCopy),
    ImageUploadEager(ImageUploadEager),
    ImageDownloadEager(ImageDownloadEager),
    Launch(Launch),
}

impl LeafNode for LeafOp {
    open spec fn outs(&self) -> Seq<Pipe> {
        match self {
            LeafOp::Fill(x) => x.outs(),
            LeafOp::FillDeviceUninit(x) => x.outs(),
            LeafOp::FillMappedUninit(x) => x.outs(),
            LeafOp::FillUsmUninit(x) => x.outs(),
            LeafOp::FillMapped(x) => x.outs(),
            LeafOp::WriteDeviceUninit(x) => x.outs(),
            LeafOp::WriteDevice(x) => x.outs(),
            LeafOp::WriteMappedUninit(x) => x.outs(),
            LeafOp::WriteMapped(x) => x.outs(),
            LeafOp::WriteUsmUninit(x) => x.outs(),
            LeafOp::ReadInto(x) => x.outs(),
            LeafOp::AcquireDeviceView(x) => x.outs(),
            LeafOp::AcquireDeviceViewRead(x) => x.outs(),
            LeafOp::ReleaseDeviceView(x) => x.outs(),
            LeafOp::AcquireMappedView(x) => x.outs(),
            LeafOp::AcquireMappedViewRead(x) => x.outs(),
            LeafOp::ReleaseMappedView(x) => x.outs(),
            LeafOp::Download(x) => x.outs(),
            LeafOp::TransferToDevice(x) => x.outs(),
            LeafOp::Upload(x) => x.outs(),
            LeafOp::ScalarUpload(x) => x.outs(),
            LeafOp::ScalarZero(x) => x.outs(),
            LeafOp::UsmSlice(x) => x.outs(),
            LeafOp::AllocZero(x) => x.outs(),
            LeafOp::DeviceAllocUninit(x) => x.outs(),
            LeafOp::MappedAllocUninit(x) => x.outs(),
            LeafOp::UsmAllocUninit(x) => x.outs(),
            LeafOp::CopyTo2(x) => x.outs(),
            LeafOp::Value(x) => x.outs(),
            LeafOp::Lift(x) => x.outs(),
            LeafOp::Forward(x) => x.outs(),
            LeafOp::ImageWrite(x) => x.outs(),
            LeafOp::ImageRead(x) => x.outs(),
            LeafOp::ImageFill(x) => x.outs(),
            LeafOp::ImageCopy(x) => x.outs(),
            LeafOp::ImageUploadEager(x) => x.outs(),
            LeafOp::ImageDownloadEager(x) => x.outs(),
            LeafOp::Launch(x) => x.outs(),
        }
    }

    open spec fn label(&self) -> Seq<char> {
        match self {
            LeafOp::Fill(x) => x.label(),
            LeafOp::FillDeviceUninit(x) => x.label(),
            LeafOp::FillMappedUninit(x) => x.label(),
            LeafOp::FillUsmUninit(x) => x.label(),
            LeafOp::FillMapped(x) => x.label(),
            LeafOp::WriteDeviceUninit(x) => x.label(),
            LeafOp::WriteDevice(x) => x.label(),
            LeafOp::WriteMappedUninit(x) => x.label(),
            LeafOp::WriteMapped(x) => x.label(),
            LeafOp::WriteUsmUninit(x) => x.label(),
            LeafOp::ReadInto(x) => x.label(),
            LeafOp::AcquireDeviceView(x) => x.label(),
            LeafOp::AcquireDeviceViewRead(x) => x.label(),
            LeafOp::ReleaseDeviceView(x) => x.label(),
            LeafOp::AcquireMappedView(x) => x.label(),
            LeafOp::AcquireMappedViewRead(x) => x.label(),
            LeafOp::ReleaseMappedView(x) => x.label(),
            LeafOp::Download(x) => x.label(),
            LeafOp::TransferToDevice(x) => x.label(),
            LeafOp::Upload(x) => x.label(),
            LeafOp::ScalarUpload(x) => x.label(),
            LeafOp::ScalarZero(x) => x.label(),
            LeafOp::UsmSlice(x) => x.label(),
            LeafOp::AllocZero(x) => x.label(),
            LeafOp::DeviceAllocUninit(x) => x.label(),
            LeafOp::MappedAllocUninit(x) => x.label(),
            LeafOp::UsmAllocUninit(x) => x.label(),
            LeafOp::CopyTo2(x) => x.label(),
            LeafOp::Value(x) => x.label(),
            LeafOp::Lift(x) => x.label(),
            LeafOp::Forward(x) => x.label(),
            LeafOp::ImageWrite(x) => x.label(),
            LeafOp::ImageRead(x) => x.label(),
            LeafOp::ImageFill(x) => x.label(),
            LeafOp::ImageCopy(x) => x.label(),
            LeafOp::ImageUploadEager(x) => x.label(),
            LeafOp::ImageDownloadEager(x) => x.label(),
            LeafOp::Launch(x) => x.label(),
        }
    }

    open spec fn ready(&self, w: World) -> OpResult<()> {
        match self {
            LeafOp::Fill(x) => x.ready(w),
            LeafOp::FillDeviceUninit(x) => x.ready(w),
            LeafOp::FillMappedUninit(x) => x.ready(w),
            LeafOp::FillUsmUninit(x) => x.ready(w),
            LeafOp::FillMapped(x) => x.ready(w),
            LeafOp::WriteDeviceUninit(x) => x.ready(w),
            LeafOp::WriteDevice(x) => x.ready(w),
            LeafOp::WriteMappedUninit(x) => x.ready(w),
            LeafOp::WriteMapped(x) => x.ready(w),
            LeafOp::WriteUsmUninit(x) => x.ready(w),
            LeafOp::ReadInto(x) => x.ready(w),
            LeafOp::AcquireDeviceView(x) => x.ready(w),
            LeafOp::AcquireDeviceViewRead(x) => x.ready(w),
            LeafOp::ReleaseDeviceView(x) => x.ready(w),
            LeafOp::AcquireMappedView(x) => x.ready(w),
            LeafOp::AcquireMappedViewRead(x) => x.ready(w),
            LeafOp::ReleaseMappedView(x) => x.ready(w),
            LeafOp::Download(x) => x.ready(w),
            LeafOp::TransferToDevice(x) => x.ready(w),
            LeafOp::Upload(x) => x.ready(w),
            LeafOp::ScalarUpload(x) => x.ready(w),
            LeafOp::ScalarZero(x) => x.ready(w),
            LeafOp::UsmSlice(x) => x.ready(w),
            LeafOp::AllocZero(x) => x.ready(w),
            LeafOp::DeviceAllocUninit(x) => x.ready(w),
            LeafOp::MappedAllocUninit(x) => x.ready(w),
            LeafOp::UsmAllocUninit(x) => x.ready(w),
            LeafOp::CopyTo2(x) => x.ready(w),
            LeafOp::Value(x) => x.ready(w),
            LeafOp::Lift(x) => x.ready(w),
            LeafOp::Forward(x) => x.ready(w),
            LeafOp::ImageWrite(x) => x.ready(w),
            LeafOp::ImageRead(x) => x.ready(w),
            LeafOp::ImageFill(x) => x.ready(w),
            LeafOp::ImageCopy(x) => x.ready(w),
            LeafOp::ImageUploadEager(x) => x.ready(w),
            LeafOp::ImageDownloadEager(x) => x.ready(w),
            LeafOp::Launch(x) => x.ready(w),
        }
    }

    open spec fn devices_needed(&self) -> nat {
        match self {
            LeafOp::Fill(x) => x.devices_needed(),
            LeafOp::FillDeviceUninit(x) => x.devices_needed(),
            LeafOp::FillMappedUninit(x) => x.devices_needed(),
            LeafOp::FillUsmUninit(x) => x.devices_needed(),
            LeafOp::FillMapped(x) => x.devices_needed(),
            LeafOp::WriteDeviceUninit(x) => x.devices_needed(),
            LeafOp::WriteDevice(x) => x.devices_needed(),
            LeafOp::WriteMappedUninit(x) => x.devices_needed(),
            LeafOp::WriteMapped(x) => x.devices_needed(),
            LeafOp::WriteUsmUninit(x) => x.devices_needed(),
            LeafOp::ReadInto(x) => x.devices_needed(),
            LeafOp::AcquireDeviceView(x) => x.devices_needed(),
            LeafOp::AcquireDeviceViewRead(x) => x.devices_needed(),
            LeafOp::ReleaseDeviceView(x) => x.devices_needed(),
            LeafOp::AcquireMappedView(x) => x.devices_needed(),
            LeafOp::AcquireMappedViewRead(x) => x.devices_needed(),
            LeafOp::ReleaseMappedView(x) => x.devices_needed(),
            LeafOp::Download(x) => x.devices_needed(),
            LeafOp::TransferToDevice(x) => x.devices_needed(),
            LeafOp::Upload(x) => x.devices_needed(),
            LeafOp::ScalarUpload(x) => x.devices_needed(),
            LeafOp::ScalarZero(x) => x.devices_needed(),
            LeafOp::UsmSlice(x) => x.devices_needed(),
            LeafOp::AllocZero(x) => x.devices_needed(),
            LeafOp::DeviceAllocUninit(x) => x.devices_needed(),
            LeafOp::MappedAllocUninit(x) => x.devices_needed(),
            LeafOp::UsmAllocUninit(x) => x.devices_needed(),
            LeafOp::CopyTo2(x) => x.devices_needed(),
            LeafOp::Value(x) => x.devices_needed(),
            LeafOp::Lift(x) => x.devices_needed(),
            LeafOp::Forward(x) => x.devices_needed(),
            LeafOp::ImageWrite(x) => x.devices_needed(),
            LeafOp::ImageRead(x) => x.devices_needed(),
            LeafOp::ImageFill(x) => x.devices_needed(),
            LeafOp::ImageCopy(x) => x.devices_needed(),
            LeafOp::ImageUploadEager(x) => x.devices_needed(),
            LeafOp::ImageDownloadEager(x) => x.devices_needed(),
            LeafOp::Launch(x) => x.devices_needed(),
        }
    }

    open spec fn runs(&self, pre: Walk, post: Walk, mode: ExecMode, res: OpResult<()>) -> bool {
        match self {
            LeafOp::Fill(x) => x.runs(pre, post, mode, res),
            LeafOp::FillDeviceUninit(x) => x.runs(pre, post, mode, res),
            LeafOp::FillMappedUninit(x) => x.runs(pre, post, mode, res),
            LeafOp::FillUsmUninit(x) => x.runs(pre, post, mode, res),
            LeafOp::FillMapped(x) => x.runs(pre, post, mode, res),
            LeafOp::WriteDeviceUninit(x) => x.runs(pre, post, mode, res),
            LeafOp::WriteDevice(x) => x.runs(pre, post, mode, res),
            LeafOp::WriteMappedUninit(x) => x.runs(pre, post, mode, res),
            LeafOp::WriteMapped(x) => x.runs(pre, post, mode, res),
            LeafOp::WriteUsmUninit(x) => x.runs(pre, post, mode, res),
            LeafOp::ReadInto(x) => x.runs(pre, post, mode, res),
            LeafOp::AcquireDeviceView(x) => x.runs(pre, post, mode, res),
            LeafOp::AcquireDeviceViewRead(x) => x.runs(pre, post, mode, res),
            LeafOp::ReleaseDeviceView(x) => x.runs(pre, post, mode, res),
            LeafOp::AcquireMappedView(x) => x.runs(pre, post, mode, res),
            LeafOp::AcquireMappedViewRead(x) => x.runs(pre, post, mode, res),
            LeafOp::ReleaseMappedView(x) => x.runs(pre, post, mode, res),
            LeafOp::Download(x) => x.runs(pre, post, mode, res),
            LeafOp::TransferToDevice(x) => x.runs(pre, post, mode, res),
            LeafOp::Upload(x) => x.runs(pre, post, mode, res),
            LeafOp::ScalarUpload(x) => x.runs(pre, post, mode, res),
            LeafOp::ScalarZero(x) => x.runs(pre, post, mode, res),
            LeafOp::UsmSlice(x) => x.runs(pre, post, mode, res),
            LeafOp::AllocZero(x) => x.runs(pre, post, mode, res),
            LeafOp::DeviceAllocUninit(x) => x.runs(pre, post, mode, res),
            LeafOp::MappedAllocUninit(x) => x.runs(pre, post, mode, res),
            LeafOp::UsmAllocUninit(x) => x.runs(pre, post, mode, res),
            LeafOp::CopyTo2(x) => x.runs(pre, post, mode, res),
            LeafOp::Value(x) => x.runs(pre, post, mode, res),
            LeafOp::Lift(x) => x.runs(pre, post, mode, res),
            LeafOp::Forward(x) => x.runs(pre, post, mode, res),
            LeafOp::ImageWrite(x) => x.runs(pre, post, mode, res),
            LeafOp::ImageRead(x) => x.runs(pre, post, mode, res),
            LeafOp::ImageFill(x) => x.runs(pre, post, mode, res),
            LeafOp::ImageCopy(x) => x.runs(pre, post, mode, res),
            LeafOp::ImageUploadEager(x) => x.runs(pre, post, mode, res),
            LeafOp::ImageDownloadEager(x) => x.runs(pre, post, mode, res),
            LeafOp::Launch(x) => x.runs(pre, post, mode, res),
        }
    }

    fn pipes(&self) -> (r: Vec<Pipe>) {
        match self {
            LeafOp::Fill(x) => x.pipes(),
            LeafOp::FillDeviceUninit(x) => x.pipes(),
            LeafOp::FillMappedUninit(x) => x.pipes(),
            LeafOp::FillUsmUninit(x) => x.pipes(),
            LeafOp::FillMapped(x) => x.pipes(),
            LeafOp::WriteDeviceUninit(x) => x.pipes(),
            LeafOp::WriteDevice(x) => x.pipes(),
            LeafOp::WriteMappedUninit(x) => x.pipes(),
            LeafOp::WriteMapped(x) => x.pipes(),
            LeafOp::WriteUsmUninit(x) => x.pipes(),
            LeafOp::ReadInto(x) => x.pipes(),
            LeafOp::AcquireDeviceView(x) => x.pipes(),
            LeafOp::AcquireDeviceViewRead(x) => x.pipes(),
            LeafOp::ReleaseDeviceView(x) => x.pipes(),
            LeafOp::AcquireMappedView(x) => x.pipes(),
            LeafOp::AcquireMappedViewRead(x) => x.pipes(),
            LeafOp::ReleaseMappedView(x) => x.pipes(),
            LeafOp::Download(x) => x.pipes(),
            LeafOp::TransferToDevice(x) => x.pipes(),
            LeafOp::Upload(x) => x.pipes(),
            LeafOp::ScalarUpload(x) => x.pipes(),
            LeafOp::ScalarZero(x) => x.pipes(),
            LeafOp::UsmSlice(x) => x.pipes(),
            LeafOp::AllocZero(x) => x.pipes(),
            LeafOp::DeviceAllocUninit(x) => x.pipes(),
            LeafOp::MappedAllocUninit(x) => x.pipes(),
            LeafOp::UsmAllocUninit(x) => x.pipes(),
            LeafOp::CopyTo2(x) => x.pipes(),
            LeafOp::Value(x) => x.pipes(),
            LeafOp::Lift(x) => x.pipes(),
            LeafOp::Forward(x) => x.pipes(),
            LeafOp::ImageWrite(x) => x.pipes(),
            LeafOp::ImageRead(x) => x.pipes(),
            LeafOp::ImageFill(x) => x.pipes(),
            LeafOp::ImageCopy(x) => x.pipes(),
            LeafOp::ImageUploadEager(x) => x.pipes(),
            LeafOp::ImageDownloadEager(x) => x.pipes(),
            LeafOp::Launch(x) => x.pipes(),
        }
    }

    fn describe(&self) -> (r: String) {
        match self {
            LeafOp::Fill(x) => x.describe(),
            LeafOp::FillDeviceUninit(x) => x.describe(),
            LeafOp::FillMappedUninit(x) => x.describe(),
            LeafOp::FillUsmUninit(x) => x.describe(),
            LeafOp::FillMapped(x) => x.describe(),
            LeafOp::WriteDeviceUninit(x) => x.describe(),
            LeafOp::WriteDevice(x) => x.describe(),
            LeafOp::WriteMappedUninit(x) => x.describe(),
            LeafOp::WriteMapped(x) => x.describe(),
            LeafOp::WriteUsmUninit(x) => x.describe(),
            LeafOp::ReadInto(x) => x.describe(),
            LeafOp::AcquireDeviceView(x) => x.describe(),
            LeafOp::AcquireDeviceViewRead(x) => x.describe(),
            LeafOp::ReleaseDeviceView(x) => x.describe(),
            LeafOp::AcquireMappedView(x) => x.describe(),
            LeafOp::AcquireMappedViewRead(x) => x.describe(),
            LeafOp::ReleaseMappedView(x) => x.describe(),
            LeafOp::Download(x) => x.describe(),
            LeafOp::TransferToDevice(x) => x.describe(),
            LeafOp::Upload(x) => x.describe(),
            LeafOp::ScalarUpload(x) => x.describe(),
            LeafOp::ScalarZero(x) => x.describe(),
            LeafOp::UsmSlice(x) => x.describe(),
            LeafOp::AllocZero(x) => x.describe(),
            LeafOp::DeviceAllocUninit(x) => x.describe(),
            LeafOp::MappedAllocUninit(x) => x.describe(),
            LeafOp::UsmAllocUninit(x) => x.describe(),
            LeafOp::CopyTo2(x) => x.describe(),
            LeafOp::Value(x) => x.describe(),
            LeafOp::Lift(x) => x.describe(),
            LeafOp::Forward(x) => x.describe(),
            LeafOp::ImageWrite(x) => x.describe(),
            LeafOp::ImageRead(x) => x.describe(),
            LeafOp::ImageFill(x) => x.describe(),
            LeafOp::ImageCopy(x) => x.describe(),
            LeafOp::ImageUploadEager(x) => x.describe(),
            LeafOp::ImageDownloadEager(x) => x.describe(),
            LeafOp::Launch(x) => x.describe(),
        }
    }

    fn check_ready(&self, st: &Store) -> (r: OpResult<()>) {
        match self {
            LeafOp::Fill(x) => x.check_ready(st),
            LeafOp::FillDeviceUninit(x) => x.check_ready(st),
            LeafOp::FillMappedUninit(x) => x.check_ready(st),
            LeafOp::FillUsmUninit(x) => x.check_ready(st),
            LeafOp::FillMapped(x) => x.check_ready(st),
            LeafOp::WriteDeviceUninit(x) => x.check_ready(st),
            LeafOp::WriteDevice(x) => x.check_ready(st),
            LeafOp::WriteMappedUninit(x) => x.check_ready(st),
            LeafOp::WriteMapped(x) => x.check_ready(st),
            LeafOp::WriteUsmUninit(x) => x.check_ready(st),
            LeafOp::ReadInto(x) => x.check_ready(st),
            LeafOp::AcquireDeviceView(x) => x.check_ready(st),
            LeafOp::AcquireDeviceViewRead(x) => x.check_ready(st),
            LeafOp::ReleaseDeviceView(x) => x.check_ready(st),
            LeafOp::AcquireMappedView(x) => x.check_ready(st),
            LeafOp::AcquireMappedViewRead(x) => x.check_ready(st),
            LeafOp::ReleaseMappedView(x) => x.check_ready(st),
            LeafOp::Download(x) => x.check_ready(st),
            LeafOp::TransferToDevice(x) => x.check_ready(st),
            LeafOp::Upload(x) => x.check_ready(st),
            LeafOp::ScalarUpload(x) => x.check_ready(st),
            LeafOp::ScalarZero(x) => x.check_ready(st),
            LeafOp::UsmSlice(x) => x.check_ready(st),
            LeafOp::AllocZero(x) => x.check_ready(st),
            LeafOp::DeviceAllocUninit(x) => x.check_ready(st),
            LeafOp::MappedAllocUninit(x) => x.check_ready(st),
            LeafOp::UsmAllocUninit(x) => x.check_ready(st),
            LeafOp::CopyTo2(x) => x.check_ready(st),
            LeafOp::Value(x) => x.check_ready(st),
            LeafOp::Lift(x) => x.check_ready(st),
            LeafOp::Forward(x) => x.check_ready(st),
            LeafOp::ImageWrite(x) => x.check_ready(st),
            LeafOp::ImageRead(x) => x.check_ready(st),
            LeafOp::ImageFill(x) => x.check_ready(st),
            LeafOp::ImageCopy(x) => x.check_ready(st),
            LeafOp::ImageUploadEager(x) => x.check_ready(st),
            LeafOp::ImageDownloadEager(x) => x.check_ready(st),
            LeafOp::Launch(x) => x.check_ready(st),
        }
    }

    fn execute<D: Driver>(&self, ec: &mut ExecutionContext<D>, mode: ExecMode) -> (r: OpResult<()>) {
        match self {
            LeafOp::Fill(x) => x.execute(ec, mode),
            LeafOp::FillDeviceUninit(x) => x.execute(ec, mode),
            LeafOp::FillMappedUninit(x) => x.execute(ec, mode),
            LeafOp::FillUsmUninit(x) => x.execute(ec, mode),
            LeafOp::FillMapped(x) => x.execute(ec, mode),
            LeafOp::WriteDeviceUninit(x) => x.execute(ec, mode),
            LeafOp::WriteDevice(x) => x.execute(ec, mode),
            LeafOp::WriteMappedUninit(x) => x.execute(ec, mode),
            LeafOp::WriteMapped(x) => x.execute(ec, mode),
            LeafOp::WriteUsmUninit(x) => x.execute(ec, mode),
            LeafOp::ReadInto(x) => x.execute(ec, mode),
            LeafOp::AcquireDeviceView(x) => x.execute(ec, mode),
            LeafOp::AcquireDeviceViewRead(x) => x.execute(ec, mode),
            LeafOp::ReleaseDeviceView(x) => x.execute(ec, mode),
            LeafOp::AcquireMappedView(x) => x.execute(ec, mode),
            LeafOp::AcquireMappedViewRead(x) => x.execute(ec, mode),
            LeafOp::ReleaseMappedView(x) => x.execute(ec, mode),
            LeafOp::Download(x) => x.execute(ec, mode),
            LeafOp::TransferToDevice(x) => x.execute(ec, mode),
            LeafOp::Upload(x) => x.execute(ec, mode),
            LeafOp::ScalarUpload(x) => x.execute(ec, mode),
            LeafOp::ScalarZero(x) => x.execute(ec, mode),
            LeafOp::UsmSlice(x) => x.execute(ec, mode),
            LeafOp::AllocZero(x) => x.execute(ec, mode),
            LeafOp::DeviceAllocUninit(x) => x.execute(ec, mode),
            LeafOp::MappedAllocUninit(x) => x.execute(ec, mode),
            LeafOp::UsmAllocUninit(x) => x.execute(ec, mode),
            LeafOp::CopyTo2(x) => x.execute(ec, mode),
            LeafOp::Value(x) => x.execute(ec, mode),
            LeafOp::Lift(x) => x.execute(ec, mode),
            LeafOp::Forward(x) => x.execute(ec, mode),
            LeafOp::ImageWrite(x) => x.execute(ec, mode),
            LeafOp::ImageRead(x) => x.execute(ec, mode),
            LeafOp::ImageFill(x) => x.execute(ec, mode),
            LeafOp::ImageCopy(x) => x.execute(ec, mode),
            LeafOp::ImageUploadEager(x) => x.execute(ec, mode),
            LeafOp::ImageDownloadEager(x) => x.execute(ec, mode),
            LeafOp::Launch(x) => x.execute(ec, mode),
        }
    }
}

impl LeafOp {
    /// Where the op keeps a command buffer of its own.
    pub open spec fn cache(&self) -> Option<CbCache> {
        match self {
            LeafOp::Fill(x) => Some(x.cb_cache),
            LeafOp::FillDeviceUninit(x) => Some(x.cb_cache),
            LeafOp::FillMappedUninit(x) => Some(x.cb_cache),
            LeafOp::FillMapped(x) => Some(x.cb_cache),
            LeafOp::CopyTo2(x) => Some(x.cb_cache),
            LeafOp::ImageFill(x) => Some(x.cb_cache),
            LeafOp::ImageCopy(x) => Some(x.cb_cache),
            LeafOp::Launch(x) => Some(x.cb_cache),
            _ => None,
        }
    }

    /// Where the op keeps a command buffer of its own.
    pub fn cb_cache(&self) -> (r: Option<CbCache>)
        ensures
            r == self.cache(),
    {
        match self {
            LeafOp::Fill(x) => Some(x.cb_cache),
            LeafOp::FillDeviceUninit(x) => Some(x.cb_cache),
            LeafOp::FillMappedUninit(x) => Some(x.cb_cache),
            LeafOp::FillMapped(x) => Some(x.cb_cache),
            LeafOp::CopyTo2(x) => Some(x.cb_cache),
            LeafOp::ImageFill(x) => Some(x.cb_cache),
            LeafOp::ImageCopy(x) => Some(x.cb_cache),
            LeafOp::Launch(x) => Some(x.cb_cache),
            _ => None,
        }
    }

    /// Whether the op can be part of a command buffer: it records a command, or
    /// only passes a value on.
    pub open spec fn addable(&self) -> bool {
        self.cache() is Some || self is Lift || self is Forward
    }

    /// Whether the op can be part of a command buffer.
    pub fn cb_addable(&self) -> (r: bool)
        ensures
            r == self.addable(),
    {
        match self {
            LeafOp::Lift(_) => true,
            LeafOp::Forward(_) => true,
            _ => self.cb_cache().is_some(),
        }
    }

    /// How many commands the op records into a command buffer.
    pub open spec fn weight(&self) -> nat {
        if self.cache() is Some {
            1
        } else {
            0
        }
    }

    /// The inputs that a bind is offered to, in order: those that may be slots.
    /// Unwritten memory never is the value of a slot.
    pub open spec fn slots(&self) -> Seq<Input> {
        match self {
            LeafOp::CopyTo2(x) => seq![x.src, x.dst],
            LeafOp::ImageCopy(x) => seq![x.src, x.dst],
            LeafOp::Fill(x) => seq![x.buf],
            LeafOp::FillMapped(x) => seq![x.buf],
            LeafOp::WriteDevice(x) => seq![x.buf],
            LeafOp::WriteMapped(x) => seq![x.buf],
            LeafOp::ReadInto(x) => seq![x.buf],
            LeafOp::AcquireDeviceView(x) => seq![x.buf],
            LeafOp::AcquireDeviceViewRead(x) => seq![x.buf],
            LeafOp::ReleaseDeviceView(x) => seq![x.view],
            LeafOp::AcquireMappedView(x) => seq![x.buf],
            LeafOp::AcquireMappedViewRead(x) => seq![x.buf],
            LeafOp::ReleaseMappedView(x) => seq![x.view],
            LeafOp::Download(x) => seq![x.buf],
            LeafOp::TransferToDevice(x) => seq![x.buf],
            LeafOp::Lift(x) => seq![x.input],
            LeafOp::ImageWrite(x) => seq![x.img],
            LeafOp::ImageRead(x) => seq![x.img],
            LeafOp::ImageFill(x) => seq![x.img],
            LeafOp::ImageDownloadEager(x) => seq![x.img],
            LeafOp::Launch(x) => x.sites(),
            _ => Seq::empty(),
        }
    }

    /// The inputs that a bind is offered to, in order.
    pub fn slot_inputs(&self) -> (r: Vec<Input>)
        ensures
            r@ == self.slots(),
    {
        let mut v: Vec<Input> = Vec::new();
        match self {
            LeafOp::CopyTo2(x) => {
                v.push(x.src);
                v.push(x.dst);
            },
            LeafOp::ImageCopy(x) => {
                v.push(x.src);
                v.push(x.dst);
            },
            LeafOp::Fill(x) => {
                v.push(x.buf);
            },
            LeafOp::FillMapped(x) => {
                v.push(x.buf);
            },
            LeafOp::WriteDevice(x) => {
                v.push(x.buf);
            },
            LeafOp::WriteMapped(x) => {
                v.push(x.buf);
            },
            LeafOp::ReadInto(x) => {
                v.push(x.buf);
            },
            LeafOp::AcquireDeviceView(x) => {
                v.push(x.buf);
            },
            LeafOp::AcquireDeviceViewRead(x) => {
                v.push(x.buf);
            },
            LeafOp::ReleaseDeviceView(x) => {
                v.push(x.view);
            },
            LeafOp::AcquireMappedView(x) => {
                v.push(x.buf);
            },
            LeafOp::AcquireMappedViewRead(x) => {
                v.push(x.buf);
            },
            LeafOp::ReleaseMappedView(x) => {
                v.push(x.view);
            },
            LeafOp::Download(x) => {
                v.push(x.buf);
            },
            LeafOp::TransferToDevice(x) => {
                v.push(x.buf);
            },
            LeafOp::Lift(x) => {
                v.push(x.input);
            },
            LeafOp::ImageWrite(x) => {
                v.push(x.img);
            },
            LeafOp::ImageRead(x) => {
                v.push(x.img);
            },
            LeafOp::ImageFill(x) => {
                v.push(x.img);
            },
            LeafOp::ImageDownloadEager(x) => {
                v.push(x.img);
            },
            LeafOp::Launch(x) => {
                return x.slot_sites();
            },
            _ => {},
        }
        assert(v@ =~= self.slots());
        v
    }

    /// The answer when the output with index `k` is missing after a run.
    pub open spec fn missing(&self, k: int) -> Error {
        match self {
            LeafOp::CopyTo2(_) => Error::NotSupported("eager graph: terminal copy produced no output"),
            LeafOp::ImageCopy(_) => if k == 0 {
                Error::NotSupported("eager graph: image copy produced no src")
            } else {
                Error::NotSupported("eager graph: image copy produced no dst")
            },
            _ => Error::NotSupported("eager graph: the op produced no output"),
        }
    }

    /// The answer when the output with index `k` is missing after a run.
    pub fn missing_error(&self, k: usize) -> (r: Error)
        ensures
            r == self.missing(k as int),
    {
        match self {
            LeafOp::CopyTo2(_) => Error::NotSupported("eager graph: terminal copy produced no output"),
            LeafOp::ImageCopy(_) => if k == 0 {
                Error::NotSupported("eager graph: image copy produced no src")
            } else {
                Error::NotSupported("eager graph: image copy produced no dst")
            },
            _ => Error::NotSupported("eager graph: the op produced no output"),
        }
    }
}

} // verus!
